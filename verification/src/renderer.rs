//! Colours and the pixel buffer that a field is drawn into.

use crate::simulation::Simulation;
use crate::text::{decimal, decimal_text};
use crate::vector2d::Vector2D;
use vstd::prelude::*;
use vstd::string::StringExecFns;
use vstd::std_specs::convert::TryIntoSpec;

verus! {

/// A row-major picture.
pub type Buffer = Vec<Color>;

/// An RGB colour.
#[derive(Debug, PartialEq, Eq, Clone, Copy, Structural)]
pub struct Color(u8, u8, u8);

impl View for Color {
    type V = (u8, u8, u8);

    /// Red, green and blue.
    closed spec fn view(&self) -> (u8, u8, u8) {
        (self.0, self.1, self.2)
    }
}

impl Default for Color {
    /// Black.
    fn default() -> (color: Self)
        ensures
            color@ == (0u8, 0u8, 0u8),
    {
        Color(0, 0, 0)
    }
}

/// The channel that a value gives: the value if it is one a byte holds, else 0.
pub open spec fn channel<T: TryInto<u8>>(value: T) -> u8 {
    match value.try_into_spec() {
        Ok(byte) => byte,
        Err(_) => 0,
    }
}

/// The colour that the low 24 bits of a word encode: red in bits 16 to 23,
/// green in bits 8 to 15, blue in bits 0 to 7.
pub open spec fn xrgb(num: u32) -> (u8, u8, u8) {
    (((num / 65536) % 256) as u8, ((num / 256) % 256) as u8, (num % 256) as u8)
}

impl Color {
    /// A colour from three channels. A channel out of the range of a byte
    /// counts as 0.
    pub fn new<T: TryInto<u8>>(r: T, g: T, b: T) -> (color: Self)
        ensures
            T::obeys_try_into_spec() ==> color@ == (channel(r), channel(g), channel(b)),
    {
        let red: u8 = match r.try_into() {
            Ok(byte) => byte,
            Err(_) => 0,
        };
        let green: u8 = match g.try_into() {
            Ok(byte) => byte,
            Err(_) => 0,
        };
        let blue: u8 = match b.try_into() {
            Ok(byte) => byte,
            Err(_) => 0,
        };
        Self(red, green, blue)
    }

    pub fn byte_array_big_endian(&self) -> (bytes: [u8; 3])
        ensures
            bytes@ == seq![self@.0, self@.1, self@.2],
    {
        let bytes = [self.0, self.1, self.2];
        assert(bytes@ =~= seq![self@.0, self@.1, self@.2]);
        bytes
    }

    pub fn byte_array_little_endian(&self) -> (bytes: [u8; 3])
        ensures
            bytes@ == seq![self@.2, self@.1, self@.0],
    {
        let bytes = [self.2, self.1, self.0];
        assert(bytes@ =~= seq![self@.2, self@.1, self@.0]);
        bytes
    }

    pub fn from_xrgb_u32(num: u32) -> (color: Self)
        ensures
            color@ == xrgb(num),
    {
        proof {
            assert(0xFF & (num >> 16) == (num / 65536) % 256) by (bit_vector);
            assert(0xFF & (num >> 8) == (num / 256) % 256) by (bit_vector);
            assert(0xFF & num == num % 256) by (bit_vector);
        }
        Self((0xFF & (num >> 16)) as u8, (0xFF & (num >> 8)) as u8, (0xFF & num) as u8)
    }
}

/// What a renderer is set up with.
#[derive(Debug, PartialEq, Eq, Clone, Copy, Structural)]
pub struct RendererAttributes {
    pub field_width: usize,
    pub field_height: usize,
    pub field_color: Color,
    pub border_color: Color,
}

impl Default for RendererAttributes {
    /// A field of no cells, all black.
    fn default() -> (attr: Self)
        ensures
            attr.field_width == 0,
            attr.field_height == 0,
            attr.field_color@ == (0u8, 0u8, 0u8),
            attr.border_color@ == (0u8, 0u8, 0u8),
    {
        RendererAttributes {
            field_width: 0,
            field_height: 0,
            field_color: Color::default(),
            border_color: Color::default(),
        }
    }
}

/// Why the renderer cannot do what it was asked.
#[derive(Debug, PartialEq, Eq, Clone, Copy, Structural)]
pub enum RendererError {
    /// A pixel at these coordinates lies outside the buffer.
    OutOfBufferRange(usize, usize),
    /// A block at these coordinates lies outside the field.
    OutOfFieldRange(usize, usize),
    /// A field of this width and height has no cells.
    FieldTooSmall(usize, usize),
    /// The renderer was initialized before.
    RendererAlreadyInitialized,
}

/// Two numbers in brackets, as they stand at the end of a message.
pub open spec fn pair_text(first: usize, second: usize) -> Seq<char> {
    "("@ + decimal_text(first as nat) + ", "@ + decimal_text(second as nat) + ")"@
}

impl RendererError {
    /// What went wrong, in words.
    pub open spec fn message_text(self) -> Seq<char> {
        match self {
            RendererError::OutOfBufferRange(x, y) =>
                "Trying to access a pixel out of Buffer range "@ + pair_text(x, y),
            RendererError::OutOfFieldRange(x, y) => "Trying to stamp on a block outside of field "@
                + pair_text(x, y),
            RendererError::FieldTooSmall(width, height) =>
                "Total width/height of Field should be bigger than 0_usize "@ + pair_text(
                    width,
                    height,
                ),
            RendererError::RendererAlreadyInitialized =>
                "Trying to initialize Renderer more than once"@,
        }
    }

    /// What went wrong, in words.
    pub fn message(&self) -> (message: String)
        ensures
            message@ == self.message_text(),
    {
        match *self {
            RendererError::OutOfBufferRange(x, y) => {
                let mut message = String::from_str("Trying to access a pixel out of Buffer range ");
                message.append(pair(x, y).as_str());
                message
            },
            RendererError::OutOfFieldRange(x, y) => {
                let mut message = String::from_str("Trying to stamp on a block outside of field ");
                message.append(pair(x, y).as_str());
                message
            },
            RendererError::FieldTooSmall(width, height) => {
                let mut message = String::from_str(
                    "Total width/height of Field should be bigger than 0_usize ",
                );
                message.append(pair(width, height).as_str());
                message
            },
            RendererError::RendererAlreadyInitialized => String::from_str(
                "Trying to initialize Renderer more than once",
            ),
        }
    }
}

/// Two numbers in brackets.
fn pair(first: usize, second: usize) -> (text: String)
    ensures
        text@ == pair_text(first, second),
{
    let mut text = String::from_str("(");
    text.append(decimal(first).as_str());
    text.append(", ");
    text.append(decimal(second).as_str());
    text.append(")");
    text
}

/// The place in a row-major buffer of the pixel in column `x` of row `y`.
pub open spec fn pixel_index(x: int, y: int, buffer_width: int) -> int {
    x + y * buffer_width
}

/// A buffer after the creatures at `positions` were stamped on it in their
/// colours, one after the other, in rows of `buffer_width` pixels.
pub open spec fn stamped(
    buffer: Seq<Color>,
    positions: Seq<Vector2D<usize>>,
    colors: Seq<Color>,
    buffer_width: usize,
) -> Seq<Color>
    decreases positions.len(),
{
    if positions.len() == 0 {
        buffer
    } else {
        stamped(buffer, positions.drop_last(), colors.drop_last(), buffer_width).update(
            pixel_index(positions.last().x as int, positions.last().y as int, buffer_width as int),
            colors.last(),
        )
    }
}

/// Draws the field with its creatures into a buffer that has a margin of one
/// pixel on every side.
#[derive(Debug)]
pub struct Renderer {
    attr: RendererAttributes,
    buffer_height: usize,
    buffer_width: usize,
    is_initialized: bool,
    empty_field_buffer: Buffer,
}

impl Renderer {
    /// What the renderer was set up with.
    pub closed spec fn attributes(&self) -> RendererAttributes {
        self.attr
    }

    /// Width and height of the buffer.
    pub closed spec fn dimensions(&self) -> (usize, usize) {
        (self.buffer_width, self.buffer_height)
    }

    /// Whether `init` has succeeded.
    pub closed spec fn initialized(&self) -> bool {
        self.is_initialized
    }

    /// The picture of the field without creatures.
    pub closed spec fn empty_field(&self) -> Seq<Color> {
        self.empty_field_buffer@
    }

    /// The buffer is two pixels wider and higher than the field, and the
    /// picture of the empty field is there exactly once `init` has succeeded.
    pub open spec fn wf(&self) -> bool {
        &&& self.attributes().field_width > 0
        &&& self.attributes().field_height > 0
        &&& self.dimensions().0 == self.attributes().field_width + 2
        &&& self.dimensions().1 == self.attributes().field_height + 2
        &&& self.dimensions().0 * self.dimensions().1 <= usize::MAX
        &&& self.empty_field().len() == if self.initialized() {
            self.dimensions().0 * self.dimensions().1
        } else {
            0
        }
    }

    fn new(attr: RendererAttributes) -> (renderer: Self)
        requires
            attr.field_width > 0,
            attr.field_height > 0,
            (attr.field_width + 2) * (attr.field_height + 2) <= usize::MAX,
        ensures
            renderer.wf(),
            renderer.attributes() == attr,
            !renderer.initialized(),
    {
        proof {
            assert(attr.field_width + 2 <= (attr.field_width + 2) * (attr.field_height + 2))
                by (nonlinear_arith)
                requires
                    attr.field_height + 2 >= 1,
                    attr.field_width + 2 >= 0,
            ;
            assert(attr.field_height + 2 <= (attr.field_width + 2) * (attr.field_height + 2))
                by (nonlinear_arith)
                requires
                    attr.field_width + 2 >= 1,
                    attr.field_height + 2 >= 0,
            ;
        }
        let buffer_width = attr.field_width + 2;
        let buffer_height = attr.field_height + 2;
        Self {
            attr,
            buffer_width,
            buffer_height,
            is_initialized: false,
            empty_field_buffer: Vec::new(),
        }
    }

    /// Draws the picture of the empty field: the border first, then the
    /// field, which is drawn over the whole buffer. A renderer can be
    /// initialized once. The side borders are drawn down to the row whose
    /// number is the width of the buffer, so a buffer wider than high cannot
    /// be initialized: its first pixel past the last row is reported.
    pub fn init(&mut self) -> (done: Result<(), RendererError>)
        requires
            old(self).wf(),
        ensures
            final(self).wf(),
            final(self).attributes() == old(self).attributes(),
            final(self).dimensions() == old(self).dimensions(),
            old(self).initialized() ==> done == Err::<(), RendererError>(
                RendererError::RendererAlreadyInitialized,
            ) && *final(self) == *old(self),
            !old(self).initialized() && old(self).dimensions().0 > old(self).dimensions().1
                ==> done == Err::<(), RendererError>(
                RendererError::OutOfBufferRange(0, old(self).dimensions().1),
            ) && *final(self) == *old(self),
            !old(self).initialized() && old(self).dimensions().0 <= old(self).dimensions().1
                ==> done is Ok && final(self).initialized() && final(self).empty_field()
                == Seq::new(
                (old(self).dimensions().0 * old(self).dimensions().1) as nat,
                |i: int| old(self).attributes().field_color,
            ),
    {
        if self.is_initialized {
            return Err(RendererError::RendererAlreadyInitialized);
        }
        let width = self.buffer_width;
        let height = self.buffer_height;
        let total = width * height;
        let mut initial_field = vec![Color::default(); total];

        // Top and bottom border.
        let mut i: usize = 0;
        while i < width
            invariant
                self.wf(),
                *self == *old(self),
                width == self.buffer_width,
                height == self.buffer_height,
                total == width * height,
                initial_field@.len() == total,
                !self.is_initialized,
                i <= width,
            decreases width - i,
        {
            proof {
                cell_is_in_buffer(i as int, 0, width as int, height as int);
                cell_is_in_buffer(i as int, height - 1, width as int, height as int);
            }
            match self.plot_pixel(&mut initial_field, i, 0, self.attr.border_color) {
                Ok(()) => {},
                Err(error) => {
                    return Err(error);
                },
            }
            match self.plot_pixel(&mut initial_field, i, height - 1, self.attr.border_color) {
                Ok(()) => {},
                Err(error) => {
                    return Err(error);
                },
            }
            i = i + 1;
        }

        // Left and right border.
        let mut i: usize = 0;
        while i < width
            invariant
                self.wf(),
                *self == *old(self),
                width == self.buffer_width,
                height == self.buffer_height,
                total == width * height,
                initial_field@.len() == total,
                !self.is_initialized,
                i <= width,
                i <= height,
            decreases width - i,
        {
            proof {
                if i < height {
                    cell_is_in_buffer(0, i as int, width as int, height as int);
                    cell_is_in_buffer(width - 1, i as int, width as int, height as int);
                } else {
                    assert(pixel_index(0, i as int, width as int) == width * height)
                        by (nonlinear_arith)
                        requires
                            i == height,
                    ;
                }
            }
            match self.plot_pixel(&mut initial_field, 0, i, self.attr.border_color) {
                Ok(()) => {},
                Err(error) => {
                    return Err(error);
                },
            }
            match self.plot_pixel(&mut initial_field, width - 1, i, self.attr.border_color) {
                Ok(()) => {},
                Err(error) => {
                    return Err(error);
                },
            }
            i = i + 1;
        }

        // The field.
        let mut x: usize = 0;
        while x < width
            invariant
                self.wf(),
                *self == *old(self),
                width == self.buffer_width,
                height == self.buffer_height,
                width <= height,
                total == width * height,
                initial_field@.len() == total,
                !self.is_initialized,
                x <= width,
                forall|c: int, r: int|
                    0 <= c < x && 0 <= r < height ==> initial_field@[#[trigger] pixel_index(
                        c,
                        r,
                        width as int,
                    )] == self.attr.field_color,
            decreases width - x,
        {
            let mut y: usize = 0;
            while y < height
                invariant
                    self.wf(),
                    *self == *old(self),
                    width == self.buffer_width,
                    height == self.buffer_height,
                    total == width * height,
                    initial_field@.len() == total,
                    !self.is_initialized,
                    x < width,
                    y <= height,
                    forall|c: int, r: int|
                        0 <= c < x && 0 <= r < height ==> initial_field@[#[trigger] pixel_index(
                            c,
                            r,
                            width as int,
                        )] == self.attr.field_color,
                    forall|r: int|
                        0 <= r < y ==> initial_field@[#[trigger] pixel_index(
                            x as int,
                            r,
                            width as int,
                        )] == self.attr.field_color,
                decreases height - y,
            {
                let ghost before = initial_field@;
                proof {
                    cell_is_in_buffer(x as int, y as int, width as int, height as int);
                }
                match self.plot_pixel(&mut initial_field, x, y, self.attr.field_color) {
                    Ok(()) => {},
                    Err(error) => {
                        return Err(error);
                    },
                }
                proof {
                    assert forall|c: int, r: int|
                        0 <= c < x && 0 <= r < height implies initial_field@[#[trigger] pixel_index(
                        c,
                        r,
                        width as int,
                    )] == self.attr.field_color by {
                        cell_is_in_buffer(c, r, width as int, height as int);
                        assert(before[pixel_index(c, r, width as int)] == self.attr.field_color);
                    }
                    assert forall|r: int|
                        0 <= r < y + 1 implies initial_field@[#[trigger] pixel_index(
                        x as int,
                        r,
                        width as int,
                    )] == self.attr.field_color by {
                        cell_is_in_buffer(x as int, r, width as int, height as int);
                        if r < y {
                            assert(before[pixel_index(x as int, r, width as int)]
                                == self.attr.field_color);
                        }
                    }
                }
                y = y + 1;
            }
            x = x + 1;
        }
        proof {
            let color = self.attr.field_color;
            assert forall|i: int| 0 <= i < total implies initial_field@[i] == color by {
                index_is_a_cell(i, width as int, height as int);
                let c = i % (width as int);
                let r = i / (width as int);
                assert(initial_field@[pixel_index(c, r, width as int)] == color);
            }
            assert(initial_field@ =~= Seq::new(total as nat, |i: int| color));
        }
        self.empty_field_buffer = initial_field;
        self.is_initialized = true;
        Ok(())
    }

    /// The picture of the field with the creatures of the world on it. Each
    /// creature is stamped in its colour on the pixel that has its
    /// coordinates. A creature whose pixel lies outside the buffer is reported.
    pub fn render(&self, sim: &Simulation) -> (picture: Result<Buffer, RendererError>)
        ensures
            picture matches Ok(buffer) ==> {
                &&& forall|i: int|
                    0 <= i < sim.positions().len() ==> pixel_index(
                        (#[trigger] sim.positions()[i]).x as int,
                        sim.positions()[i].y as int,
                        self.dimensions().0 as int,
                    ) < self.empty_field().len()
                &&& buffer@ == stamped(
                    self.empty_field(),
                    sim.positions(),
                    sim.colors(),
                    self.dimensions().0,
                )
            },
            picture matches Err(error) ==> exists|i: int|
                {
                    &&& 0 <= i < sim.positions().len()
                    &&& pixel_index(
                        (#[trigger] sim.positions()[i]).x as int,
                        sim.positions()[i].y as int,
                        self.dimensions().0 as int,
                    ) >= self.empty_field().len()
                    &&& error == RendererError::OutOfBufferRange(
                        sim.positions()[i].x,
                        sim.positions()[i].y,
                    )
                    &&& forall|k: int|
                        0 <= k < i ==> pixel_index(
                            (#[trigger] sim.positions()[k]).x as int,
                            sim.positions()[k].y as int,
                            self.dimensions().0 as int,
                        ) < self.empty_field().len()
                },
    {
        let mut buffer = self.empty_field_buffer.clone();
        let creatures = sim.creatures();
        let total = creatures.len();
        let mut i: usize = 0;
        proof {
            assert(sim.positions().subrange(0, 0) =~= Seq::<Vector2D<usize>>::empty());
        }
        while i < total
            invariant
                total == creatures@.len(),
                creatures@ == sim.population(),
                i <= total,
                buffer@.len() == self.empty_field_buffer@.len(),
                forall|k: int|
                    0 <= k < i ==> pixel_index(
                        (#[trigger] sim.positions()[k]).x as int,
                        sim.positions()[k].y as int,
                        self.buffer_width as int,
                    ) < self.empty_field_buffer@.len(),
                buffer@ == stamped(
                    self.empty_field_buffer@,
                    sim.positions().subrange(0, i as int),
                    sim.colors().subrange(0, i as int),
                    self.buffer_width,
                ),
            decreases total - i,
        {
            let c = &creatures[i];
            let pos = *c.position();
            proof {
                assert(sim.positions()[i as int] == pos);
                assert(sim.colors()[i as int] == c.color_view());
                assert(sim.positions().subrange(0, i + 1).drop_last() =~= sim.positions().subrange(
                    0,
                    i as int,
                ));
                assert(sim.colors().subrange(0, i + 1).drop_last() =~= sim.colors().subrange(
                    0,
                    i as int,
                ));
            }
            match self.plot_pixel(&mut buffer, pos.x, pos.y, c.color()) {
                Ok(()) => {},
                Err(error) => {
                    return Err(error);
                },
            }
            i = i + 1;
        }
        proof {
            assert(sim.positions().subrange(0, total as int) =~= sim.positions());
            assert(sim.colors().subrange(0, total as int) =~= sim.colors());
        }
        Ok(buffer)
    }

    pub fn buffer_dimensions(&self) -> (dimensions: (usize, usize))
        ensures
            dimensions == self.dimensions(),
    {
        (self.buffer_width, self.buffer_height)
    }

    /// Colours one pixel of the buffer, if the buffer has it.
    fn plot_pixel(&self, buffer: &mut Buffer, x: usize, y: usize, color: Color) -> (done: Result<
        (),
        RendererError,
    >)
        ensures
            pixel_index(x as int, y as int, self.buffer_width as int) < old(buffer)@.len() ==> done
                is Ok && final(buffer)@ == old(buffer)@.update(
                pixel_index(x as int, y as int, self.buffer_width as int),
                color,
            ),
            pixel_index(x as int, y as int, self.buffer_width as int) >= old(buffer)@.len() ==> done
                == Err::<
                (),
                RendererError,
            >(RendererError::OutOfBufferRange(x, y)) && final(buffer)@ == old(buffer)@,
    {
        let len = buffer.len();
        let row_start = match y.checked_mul(self.buffer_width) {
            Some(start) => start,
            None => {
                return Err(RendererError::OutOfBufferRange(x, y));
            },
        };
        let index = match x.checked_add(row_start) {
            Some(index) => index,
            None => {
                return Err(RendererError::OutOfBufferRange(x, y));
            },
        };
        if index >= len {
            return Err(RendererError::OutOfBufferRange(x, y));
        }
        buffer[index] = color;
        Ok(())
    }
}

/// The pixel in column `c` of row `r` has a place in the buffer.
proof fn cell_is_in_buffer(c: int, r: int, width: int, height: int)
    requires
        0 <= c < width,
        0 <= r < height,
    ensures
        0 <= pixel_index(c, r, width) < width * height,
{
    assert(r * width >= 0) by (nonlinear_arith)
        requires
            r >= 0,
            width >= 0,
    ;
    assert(c + r * width < width * height) by (nonlinear_arith)
        requires
            0 <= c < width,
            0 <= r < height,
    ;
}

/// Every place of the buffer is that of a pixel.
proof fn index_is_a_cell(i: int, width: int, height: int)
    requires
        0 <= i < width * height,
        width > 0,
    ensures
        0 <= i % width < width,
        0 <= i / width < height,
        i == i % width + (i / width) * width,
{
    assert(i == i % width + (i / width) * width && 0 <= i % width < width && 0 <= i / width)
        by (nonlinear_arith)
        requires
            0 <= i,
            width > 0,
    ;
    assert(i / width < height) by (nonlinear_arith)
        requires
            0 <= i < width * height,
            width > 0,
            i == i % width + (i / width) * width,
            0 <= i % width,
    ;
}

/// Sets a renderer up, attribute by attribute.
pub struct RendererBuilder {
    attr: RendererAttributes,
}

impl View for RendererBuilder {
    type V = RendererAttributes;

    /// What has been chosen so far.
    closed spec fn view(&self) -> RendererAttributes {
        self.attr
    }
}

impl RendererBuilder {
    /// A builder with a field of no cells, all black.
    pub fn new() -> (builder: Self)
        ensures
            builder@.field_width == 0,
            builder@.field_height == 0,
            builder@.field_color@ == (0u8, 0u8, 0u8),
            builder@.border_color@ == (0u8, 0u8, 0u8),
    {
        Self { attr: RendererAttributes::default() }
    }

    /// The renderer as set up. A field without cells is refused.
    pub fn build(self) -> (built: Result<Renderer, RendererError>)
        requires
            (self@.field_width + 2) * (self@.field_height + 2) <= usize::MAX,
        ensures
            self@.field_width == 0 || self@.field_height == 0 ==> built == Err::<
                Renderer,
                RendererError,
            >(RendererError::FieldTooSmall(self@.field_width, self@.field_height)),
            self@.field_width > 0 && self@.field_height > 0 ==> built is Ok && built->Ok_0.wf()
                && built->Ok_0.attributes() == self@ && !built->Ok_0.initialized(),
    {
        if self.attr.field_width == 0 || self.attr.field_height == 0 {
            return Err(
                RendererError::FieldTooSmall(self.attr.field_width, self.attr.field_height),
            );
        }
        return Ok(Renderer::new(self.attr));
    }

    pub fn with_field_color(self, color: Color) -> (builder: Self)
        ensures
            builder@ == (RendererAttributes { field_color: color, ..self@ }),
    {
        let mut builder = self;
        builder.attr.field_color = color;
        builder
    }

    pub fn with_border_color(self, color: Color) -> (builder: Self)
        ensures
            builder@ == (RendererAttributes { border_color: color, ..self@ }),
    {
        let mut builder = self;
        builder.attr.border_color = color;
        builder
    }

    pub fn with_field_dimensions(self, width: usize, height: usize) -> (builder: Self)
        ensures
            builder@ == (RendererAttributes { field_width: width, field_height: height, ..self@ }),
    {
        let mut builder = self;
        builder.attr.field_width = width;
        builder.attr.field_height = height;
        builder
    }
}

} // verus!
