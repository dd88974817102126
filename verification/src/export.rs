//! What the simulation hands to the outside: the wiring of its creatures as
//! text, and a picture as the bytes of a TGA file.

use crate::neuron::action_neuron::ActionNeuron;
use crate::neuron::brain::compiled;
use crate::neuron::sensory_neuron::SensoryNeuron;
use crate::neuron::{Connection, ConnectionType};
use crate::renderer::{Buffer, Color};
use crate::simulation::Simulation;
use crate::text::{decimal, decimal_text, signed, signed_text};
use vstd::prelude::*;
use vstd::string::StringExecFns;

verus! {

/// The name of a sensory neuron.
pub open spec fn sensory_name(neuron: SensoryNeuron) -> Seq<char> {
    match neuron {
        SensoryNeuron::Random => "Random"@,
        SensoryNeuron::DistToBarrierNorth => "DistToBarrierNorth"@,
        SensoryNeuron::DistToBarrierSouth => "DistToBarrierSouth"@,
        SensoryNeuron::DistToBarrierEast => "DistToBarrierEast"@,
        SensoryNeuron::DistToBarrierWest => "DistToBarrierWest"@,
    }
}

/// The name of an action neuron.
pub open spec fn action_name(neuron: ActionNeuron) -> Seq<char> {
    match neuron {
        ActionNeuron::MoveNorth => "MoveNorth"@,
        ActionNeuron::MoveSouth => "MoveSouth"@,
        ActionNeuron::MoveEast => "MoveEast"@,
        ActionNeuron::MoveWest => "MoveWest"@,
    }
}

/// The source of a connection: the name of a sensor, or the number of an
/// internal neuron.
pub open spec fn source_text(kind: ConnectionType) -> Seq<char> {
    match kind {
        ConnectionType::SensoryToAction { source, .. } => sensory_name(source),
        ConnectionType::SensoryToInternal { source, .. } => sensory_name(source),
        ConnectionType::InternalToInternal { source, .. } => decimal_text(source as nat),
        ConnectionType::InternalToAction { source, .. } => decimal_text(source as nat),
    }
}

/// The sink of a connection: the name of an action, or the number of an
/// internal neuron.
pub open spec fn sink_text(kind: ConnectionType) -> Seq<char> {
    match kind {
        ConnectionType::SensoryToAction { sink, .. } => action_name(sink),
        ConnectionType::SensoryToInternal { sink, .. } => decimal_text(sink as nat),
        ConnectionType::InternalToInternal { sink, .. } => decimal_text(sink as nat),
        ConnectionType::InternalToAction { sink, .. } => action_name(sink),
    }
}

/// The line of a connection: the number of its kind, its source, its sink
/// and its weight, with a tab between them and a line feed at the end.
pub open spec fn connection_line(kind: ConnectionType, weight: int) -> Seq<char> {
    decimal_text(kind.band() as nat) + "\t"@ + source_text(kind) + "\t"@ + sink_text(kind) + "\t"@
        + signed_text(weight) + "\n"@
}

/// The lines of the connections of a wiring, in the order of the wiring.
pub open spec fn wiring_lines(wiring: Seq<Connection>) -> Seq<char>
    decreases wiring.len(),
{
    if wiring.len() == 0 {
        Seq::empty()
    } else {
        wiring_lines(wiring.drop_last()) + connection_line(
            wiring.last().kind(),
            wiring.last().strength(),
        )
    }
}

/// The line that stands above the wiring of creature number `index`.
pub open spec fn creature_heading(index: nat) -> Seq<char> {
    "Creature #"@ + decimal_text(index) + "\n"@
}

/// The wirings of brain after brain, each under its heading.
pub open spec fn brain_report(brains: Seq<Seq<Connection>>) -> Seq<char>
    decreases brains.len(),
{
    if brains.len() == 0 {
        Seq::empty()
    } else {
        brain_report(brains.drop_last()) + creature_heading((brains.len() - 1) as nat)
            + wiring_lines(brains.last())
    }
}

/// The brains of the creatures of a world, in the order of the creatures.
pub open spec fn brains_of(sim: &Simulation) -> Seq<Seq<Connection>> {
    Seq::new(sim.population().len(), |i: int| compiled(sim.population()[i]@.genome))
}

/// The header of an uncompressed true-colour TGA picture of 24 bits a
/// pixel, rows from the top: width and height stand in two bytes each, low
/// byte first.
pub open spec fn tga_header(width: usize, height: usize) -> Seq<u8> {
    seq![
        0u8,
        0u8,
        2u8,
        0u8,
        0u8,
        0u8,
        0u8,
        0u8,
        0u8,
        0u8,
        0u8,
        0u8,
        (width % 256) as u8,
        ((width / 256) % 256) as u8,
        (height % 256) as u8,
        ((height / 256) % 256) as u8,
        24u8,
        32u8,
    ]
}

/// The pixels of a picture as bytes: blue, green and red of pixel after pixel.
pub open spec fn pixel_bytes(buffer: Seq<Color>) -> Seq<u8>
    decreases buffer.len(),
{
    if buffer.len() == 0 {
        Seq::empty()
    } else {
        pixel_bytes(buffer.drop_last()) + seq![
            buffer.last()@.2,
            buffer.last()@.1,
            buffer.last()@.0,
        ]
    }
}

fn sensory_neuron_name(neuron: SensoryNeuron) -> (name: &'static str)
    ensures
        name@ == sensory_name(neuron),
{
    match neuron {
        SensoryNeuron::Random => "Random",
        SensoryNeuron::DistToBarrierNorth => "DistToBarrierNorth",
        SensoryNeuron::DistToBarrierSouth => "DistToBarrierSouth",
        SensoryNeuron::DistToBarrierEast => "DistToBarrierEast",
        SensoryNeuron::DistToBarrierWest => "DistToBarrierWest",
    }
}

fn action_neuron_name(neuron: ActionNeuron) -> (name: &'static str)
    ensures
        name@ == action_name(neuron),
{
    match neuron {
        ActionNeuron::MoveNorth => "MoveNorth",
        ActionNeuron::MoveSouth => "MoveSouth",
        ActionNeuron::MoveEast => "MoveEast",
        ActionNeuron::MoveWest => "MoveWest",
    }
}

/// The line that describes a connection.
pub fn parse_connection(conn: &Connection) -> (line: String)
    ensures
        line@ == connection_line(conn.kind(), conn.strength()),
{
    let kind = *conn.connection_type();
    let mut line = decimal(kind.kind_id() as usize);
    line.append("\t");
    match kind {
        ConnectionType::SensoryToAction { source, sink } => {
            line.append(sensory_neuron_name(source));
            line.append("\t");
            line.append(action_neuron_name(sink));
        },
        ConnectionType::SensoryToInternal { source, sink } => {
            line.append(sensory_neuron_name(source));
            line.append("\t");
            line.append(decimal(sink).as_str());
        },
        ConnectionType::InternalToInternal { source, sink } => {
            line.append(decimal(source).as_str());
            line.append("\t");
            line.append(decimal(sink).as_str());
        },
        ConnectionType::InternalToAction { source, sink } => {
            line.append(decimal(source).as_str());
            line.append("\t");
            line.append(action_neuron_name(sink));
        },
    }
    line.append("\t");
    line.append(signed(conn.weight()).as_str());
    line.append("\n");
    line
}

/// The wiring of every creature of the world, under a heading for each.
pub fn export_creatures_brain(sim: &Simulation) -> (report: String)
    ensures
        report@ == brain_report(brains_of(sim)),
{
    let mut report = String::new();
    let creatures = sim.creatures();
    let total = creatures.len();
    let mut i: usize = 0;
    proof {
        assert(brains_of(sim).subrange(0, 0) =~= Seq::<Seq<Connection>>::empty());
    }
    while i < total
        invariant
            creatures@ == sim.population(),
            total == creatures@.len(),
            i <= total,
            report@ == brain_report(brains_of(sim).subrange(0, i as int)),
        decreases total - i,
    {
        let mut heading = String::from_str("Creature #");
        heading.append(decimal(i).as_str());
        heading.append("\n");

        let connections = creatures[i].brain().connections();
        let mut parsed_conns = String::new();
        let count = connections.len();
        let mut k: usize = 0;
        proof {
            assert(connections@.subrange(0, 0) =~= Seq::<Connection>::empty());
        }
        while k < count
            invariant
                count == connections@.len(),
                k <= count,
                parsed_conns@ == wiring_lines(connections@.subrange(0, k as int)),
            decreases count - k,
        {
            let line = parse_connection(&connections[k]);
            proof {
                let seen = connections@.subrange(0, k + 1);
                assert(seen.drop_last() =~= connections@.subrange(0, k as int));
                assert(seen.last() == connections@[k as int]);
            }
            parsed_conns.append(line.as_str());
            k = k + 1;
        }
        proof {
            assert(connections@.subrange(0, count as int) =~= connections@);
            let seen = brains_of(sim).subrange(0, i + 1);
            assert(seen.drop_last() =~= brains_of(sim).subrange(0, i as int));
            assert(seen.last() == connections@);
        }
        report.append(heading.as_str());
        report.append(parsed_conns.as_str());
        i = i + 1;
    }
    proof {
        assert(brains_of(sim).subrange(0, total as int) =~= brains_of(sim));
    }
    report
}

/// The bytes of a TGA file that shows the picture.
pub fn export_to_tga(buffer: &Buffer, buffer_width: usize, buffer_height: usize) -> (bytes: Vec<u8>)
    ensures
        bytes@ == tga_header(buffer_width, buffer_height) + pixel_bytes(buffer@),
{
    let mut header_data: [u8; 18] = [0; 18];

    // Image type: uncompressed true-color
    header_data[2] = 2;

    proof {
        assert(0xFF & buffer_width == buffer_width % 256) by (bit_vector);
        assert(0xFF & (buffer_width >> 8) == (buffer_width / 256) % 256) by (bit_vector);
        assert(0xFF & buffer_height == buffer_height % 256) by (bit_vector);
        assert(0xFF & (buffer_height >> 8) == (buffer_height / 256) % 256) by (bit_vector);
    }
    // Image width (stored over 2 bytes)
    header_data[12] = (0xFF & buffer_width) as u8;
    header_data[13] = (0xFF & (buffer_width >> 8)) as u8;

    // Image height (stored over 2 bytes)
    header_data[14] = (0xFF & buffer_height) as u8;
    header_data[15] = (0xFF & (buffer_height >> 8)) as u8;

    // Pixel depth (24 bits per pixel)
    header_data[16] = 24;

    // Image descriptor; set ordering to top-bottom, left-right
    header_data[17] = 0b00_10_00_00;

    proof {
        assert(header_data@ =~= tga_header(buffer_width, buffer_height));
    }
    let mut bytes: Vec<u8> = Vec::new();
    let mut i: usize = 0;
    while i < 18
        invariant
            i <= 18,
            header_data@.len() == 18,
            bytes@ == header_data@.subrange(0, i as int),
        decreases 18 - i,
    {
        bytes.push(header_data[i]);
        proof {
            assert(bytes@ =~= header_data@.subrange(0, i + 1));
        }
        i = i + 1;
    }
    proof {
        assert(header_data@.subrange(0, 18) =~= header_data@);
        assert(buffer@.subrange(0, 0) =~= Seq::<Color>::empty());
        assert(bytes@ =~= header_data@ + pixel_bytes(buffer@.subrange(0, 0)));
    }
    let total = buffer.len();
    let mut i: usize = 0;
    while i < total
        invariant
            total == buffer@.len(),
            i <= total,
            bytes@ == header_data@ + pixel_bytes(buffer@.subrange(0, i as int)),
        decreases total - i,
    {
        let pixel = buffer[i].byte_array_little_endian();
        let ghost before = bytes@;
        bytes.push(pixel[0]);
        bytes.push(pixel[1]);
        bytes.push(pixel[2]);
        proof {
            let seen = buffer@.subrange(0, i + 1);
            assert(seen.drop_last() =~= buffer@.subrange(0, i as int));
            assert(seen.last() == buffer@[i as int]);
            assert(bytes@ =~= before + seq![pixel@[0], pixel@[1], pixel@[2]]);
            assert(bytes@ =~= header_data@ + pixel_bytes(seen));
        }
        i = i + 1;
    }
    proof {
        assert(buffer@.subrange(0, total as int) =~= buffer@);
    }
    bytes
}

} // verus!
