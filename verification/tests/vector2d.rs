use biosim::vector2d::Vector2D;

#[test]
fn add_vector2d() {
    let a = Vector2D::new(2, 5);
    let b = Vector2D::new(5, 6);

    assert_eq!(a + b, Vector2D::new(7, 11));
}

#[test]
fn substract_vector2d() {
    let a = Vector2D::new(4, 20);
    let b = Vector2D::new(8, 11);

    assert_eq!(a - b, Vector2D::new(-4, 9));
}

#[test]
fn dot_product_vector2d() {
    let a = Vector2D::new(5, 6);
    let b = Vector2D::new(10, 2);

    assert_eq!(a * b, 62);
}

#[test]
fn vectors_of_grid_coordinates() {
    let a: Vector2D<usize> = Vector2D::new(3, 4);
    let b: Vector2D<usize> = Vector2D::new(1, 2);

    assert_eq!(a + b, Vector2D::new(4, 6));
    assert_eq!(a - b, Vector2D::new(2, 2));
    assert_eq!(a * b, 11);
}

#[test]
fn new_keeps_both_coordinates() {
    let v = Vector2D::new(7u8, 9u8);
    assert_eq!(v.x, 7);
    assert_eq!(v.y, 9);
}
