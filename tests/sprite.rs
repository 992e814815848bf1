use game_of_life::{Board, BoardSprite, Cell, Mode, PixelRect};

#[test]
fn new_keeps_its_parts() {
    let sprite = BoardSprite::new(Board::new(4, 3, None), Mode::Edit, 15);
    assert_eq!(sprite.mode, Mode::Edit);
    assert_eq!(sprite.cell_size, 15);
    assert_eq!(sprite.board.width(), 4);
    assert_eq!(sprite.board.height(), 3);
}

#[test]
fn modes_switch() {
    assert_eq!(Mode::Normal.switched(), Mode::Edit);
    assert_eq!(Mode::Edit.switched(), Mode::Normal);
}

#[test]
fn point_maps_to_cell() {
    let sprite = BoardSprite::new(Board::new(4, 3, None), Mode::Edit, 15);
    let cell = sprite.point_to_cell(0, 0).unwrap();
    assert_eq!((cell.x, cell.y), (0, 0));
    let cell = sprite.point_to_cell(31, 44).unwrap();
    assert_eq!((cell.x, cell.y), (2, 2));
    let cell = sprite.point_to_cell(59, 14).unwrap();
    assert_eq!((cell.x, cell.y), (3, 0));
}

#[test]
fn point_off_board_is_refused() {
    let sprite = BoardSprite::new(Board::new(4, 3, None), Mode::Edit, 15);
    assert!(sprite.point_to_cell(60, 0).is_err());
    assert!(sprite.point_to_cell(0, 45).is_err());
    assert!(sprite.point_to_cell(-1, 3).is_err());
    assert!(sprite.point_to_cell(3, -20).is_err());
}

#[test]
fn cell_rect_scales_by_cell_size() {
    let sprite = BoardSprite::new(Board::new(4, 3, None), Mode::Normal, 15);
    assert_eq!(sprite.cell_rect(&Cell { x: 0, y: 0 }), Ok(PixelRect { x: 0, y: 0, size: 15 }));
    assert_eq!(sprite.cell_rect(&Cell { x: 3, y: 2 }), Ok(PixelRect { x: 45, y: 30, size: 15 }));
}

#[test]
fn cell_rect_outside_is_refused() {
    let sprite = BoardSprite::new(Board::new(4, 3, None), Mode::Normal, 15);
    assert!(sprite.cell_rect(&Cell { x: 4, y: 0 }).is_err());
    assert!(sprite.cell_rect(&Cell { x: 0, y: 3 }).is_err());
}

#[test]
fn cell_rect_past_pixel_range_is_refused() {
    let sprite = BoardSprite::new(Board::new(4, 3, None), Mode::Normal, 1_000_000_000);
    assert_eq!(
        sprite.cell_rect(&Cell { x: 1, y: 0 }),
        Ok(PixelRect { x: 1_000_000_000, y: 0, size: 1_000_000_000 })
    );
    assert!(sprite.cell_rect(&Cell { x: 2, y: 0 }).is_err());
}
