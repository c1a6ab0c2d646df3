use elevation_service::hgt::{HGT, SRTM1_LEN, SRTM3_LEN};
use elevation_service::types::{CellKey, ElevationError};

#[test]
fn test_hgt_creation_valid_buffer() {
    let buffer = vec![0; 25934402]; // Valid buffer size for 1 arcsecond resolution
    let sw = CellKey { lat: 0, lng: 0 };
    let hgt = HGT::new(buffer, sw);
    assert!(hgt.is_ok());
}

#[test]
fn test_hgt_creation_invalid_buffer() {
    let buffer = vec![0; 100]; // Invalid buffer size
    let sw = CellKey { lat: 0, lng: 0 };
    let hgt = HGT::new(buffer, sw);
    assert!(hgt.is_err());
    assert_eq!(hgt.unwrap_err(), ElevationError::InvalidTileFormat);
}

#[test]
fn test_hgt_sizes_round_trip() {
    let one_arcsecond = HGT::new(vec![0; SRTM1_LEN], CellKey { lat: 45, lng: 9 }).unwrap();
    assert_eq!(one_arcsecond.size(), 3601);
    assert_eq!(one_arcsecond.sw(), CellKey { lat: 45, lng: 9 });

    let three_arcsecond = HGT::new(vec![0; SRTM3_LEN], CellKey { lat: -46, lng: -10 }).unwrap();
    assert_eq!(three_arcsecond.size(), 1201);
    assert_eq!(three_arcsecond.sw(), CellKey { lat: -46, lng: -10 });

    assert!(HGT::new(vec![0; SRTM1_LEN - 1], CellKey { lat: 0, lng: 0 }).is_err());
    assert!(HGT::new(vec![0; SRTM3_LEN + 1], CellKey { lat: 0, lng: 0 }).is_err());
    assert!(HGT::new(Vec::new(), CellKey { lat: 0, lng: 0 }).is_err());
}

/// The byte offset of the sample at `(row, col)` in a grid of side `size`.
fn offset(size: usize, row: usize, col: usize) -> usize {
    ((size - row - 1) * size + col) * 2
}

#[test]
fn test_sample_reads_big_endian() {
    let size = 1201;
    let mut buffer = vec![0u8; SRTM3_LEN];
    // 300 = 0x012C at (5, 7)
    let o = offset(size, 5, 7);
    buffer[o] = 0x01;
    buffer[o + 1] = 0x2C;
    // -2 = 0xFFFE at (0, 0)
    let o = offset(size, 0, 0);
    buffer[o] = 0xFF;
    buffer[o + 1] = 0xFE;
    let hgt = HGT::new(buffer, CellKey { lat: 0, lng: 0 }).unwrap();
    assert_eq!(hgt.sample(5, 7), 300);
    assert_eq!(hgt.sample(0, 0), -2);
    assert_eq!(hgt.sample(5, 8), 0);
}

#[test]
fn test_corner_samples_interior() {
    let size = 1201;
    let mut buffer = vec![0u8; SRTM3_LEN];
    let values = [(10usize, 20usize, 11i16), (10, 21, 12), (11, 20, 13), (11, 21, 14)];
    for (row, col, v) in values {
        let o = offset(size, row, col);
        let b = (v as u16).to_be_bytes();
        buffer[o] = b[0];
        buffer[o + 1] = b[1];
    }
    let hgt = HGT::new(buffer, CellKey { lat: 0, lng: 0 }).unwrap();
    assert_eq!(hgt.corner_samples(10, 20), (11, 12, 13, 14));
}

#[test]
fn test_corner_samples_clamped_at_edge() {
    // A read whose low corner already sits on the last row and column must
    // stay inside the buffer and read that edge sample.
    let size = 1201;
    let n = size - 1;
    let mut buffer = vec![0u8; SRTM3_LEN];
    let o = offset(size, n, n);
    buffer[o] = 0x00;
    buffer[o + 1] = 0x07;
    let hgt = HGT::new(buffer, CellKey { lat: 0, lng: 0 }).unwrap();
    assert_eq!(hgt.corner_samples(n, n), (7, 7, 7, 7));
}

#[test]
fn test_corner_samples_clamped_at_north_edge_large_grid() {
    let hgt = HGT::new(vec![0u8; SRTM1_LEN], CellKey { lat: 89, lng: 0 }).unwrap();
    let n = 3600;
    assert_eq!(hgt.corner_samples(n, 0), (0, 0, 0, 0));
    assert_eq!(hgt.corner_samples(0, n), (0, 0, 0, 0));
    assert_eq!(hgt.corner_samples(n, n), (0, 0, 0, 0));
}
