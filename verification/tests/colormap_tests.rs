use cca::get_colormap;

#[test]
fn test_get_colormap() {
    let ground_truth: Vec<u8> = vec![0xB2, 0x1F, 0x35, 0xFF, 0x74, 0x35, 0xFF, 0xF7, 0x35];
    let colormap = get_colormap(3);
    assert_eq!(ground_truth, colormap);

    let ground_truth: Vec<u8> = vec![
        0xB2, 0x1F, 0x35, 0xFF, 0x74, 0x35, 0xFF, 0xF7, 0x35, 0x16, 0xDD, 0x36, 0x00, 0x79, 0xE7,
        0xBD, 0x7A, 0xF6,
    ];
    let colormap = get_colormap(6);
    assert_eq!(ground_truth, colormap);

    let ground_truth: Vec<u8> = vec![];
    let colormap = get_colormap(0);
    assert_eq!(ground_truth, colormap);
}

#[test]
fn test_get_colormap_cycles_past_base_table() {
    let ground_truth: Vec<u8> = vec![
        0xB2, 0x1F, 0x35, 0xFF, 0x74, 0x35, 0xFF, 0xF7, 0x35, 0x16, 0xDD, 0x36, 0x00, 0x79, 0xE7,
        0xBD, 0x7A, 0xF6, 0xB2, 0x1F, 0x35,
    ];
    let colormap = get_colormap(7);
    assert_eq!(ground_truth, colormap);
}

#[test]
fn test_get_colormap_largest_state_count() {
    let colormap = get_colormap(255);
    assert_eq!(colormap.len(), 3 * 255);
    for (i, &byte) in colormap.iter().enumerate() {
        let base: [u8; 18] = [
            0xB2, 0x1F, 0x35, 0xFF, 0x74, 0x35, 0xFF, 0xF7, 0x35, 0x16, 0xDD, 0x36, 0x00, 0x79,
            0xE7, 0xBD, 0x7A, 0xF6,
        ];
        assert_eq!(byte, base[i % 18]);
    }
}
