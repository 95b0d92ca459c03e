use subdivism::game::block_style::{block_from_key, block_key, read_style_line, style_book_header_lines, StyleLine, StyleLineError};
use subdivism::game::world::Block;

#[test]
fn block_keys_read_back_in_any_case() {
    for id in 0..10u8 {
        let block = Block::from_id(id);
        assert_eq!(block_from_key(block_key(block)), Some(block));
        assert_eq!(block_from_key(&block_key(block).to_ascii_uppercase()), Some(block));
    }
}

#[test]
fn style_lines_are_read_by_block() {
    let line = " style, Stone ,0.5,0.5,0.5,0.4,0.4,0.4,0.3,0.3,0.3,1.0,0.2 ";
    match read_style_line(line) {
        Ok(StyleLine::Style(block, values)) => {
            assert_eq!(block, Block::Stone);
            assert_eq!(values.len(), 11);
            assert_eq!(values[0], "0.5");
            assert_eq!(values[10], "0.2");
        }
        _ => panic!("style line not read"),
    }
    assert!(matches!(read_style_line("# comment"), Ok(StyleLine::Skipped)));
    assert!(matches!(read_style_line("version=1"), Ok(StyleLine::Skipped)));
    assert!(matches!(read_style_line("brush,noise"), Ok(StyleLine::Skipped)));
    assert!(matches!(read_style_line("style,stone,1,2"), Err(StyleLineError::FieldCount)));
    match read_style_line("style,lava,1,1,1,1,1,1,1,1,1,1,1") {
        Err(StyleLineError::UnknownBlock(key)) => assert_eq!(key, "lava"),
        _ => panic!("unknown block accepted"),
    }
    assert_eq!(style_book_header_lines(), vec!["# Subdivism block style book", "version=1", ""]);
}
