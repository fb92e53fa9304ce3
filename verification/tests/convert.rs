use pixel_rgba::{convert, grid_is_valid, ConvertError};

#[test]
fn single_pixel_grid() {
    let grid = vec![vec![vec![10u8, 20, 30]]];
    let img = convert(&grid).unwrap();
    assert_eq!(img.data, vec![10u8, 20, 30, 255]);
    assert_eq!(img.width, 1);
    assert_eq!(img.height, 1);
}

#[test]
fn two_by_two_grid() {
    let grid = vec![
        vec![vec![1u8, 2, 3], vec![4u8, 5, 6]],
        vec![vec![7u8, 8, 9], vec![10u8, 11, 12]],
    ];
    let img = convert(&grid).unwrap();
    assert_eq!(
        img.data,
        vec![1u8, 2, 3, 255, 4, 5, 6, 255, 7, 8, 9, 255, 10, 11, 12, 255]
    );
    assert_eq!(img.width, 2);
    assert_eq!(img.height, 2);
}

#[test]
fn buffer_length_is_four_per_pixel() {
    let grid = vec![vec![vec![0u8, 0, 0]; 5]; 3];
    let img = convert(&grid).unwrap();
    assert_eq!(img.width, 5);
    assert_eq!(img.height, 3);
    assert_eq!(img.data.len(), 4 * 5 * 3);
}

#[test]
fn every_pixel_copied_verbatim() {
    let height = 2usize;
    let width = 3usize;
    let mut grid: Vec<Vec<Vec<u8>>> = Vec::new();
    for i in 0..height {
        let mut row: Vec<Vec<u8>> = Vec::new();
        for j in 0..width {
            let base = (10 * (i * width + j)) as u8;
            row.push(vec![base, base + 1, base + 2]);
        }
        grid.push(row);
    }
    let img = convert(&grid).unwrap();
    assert_eq!(img.data.len(), 4 * width * height);
    for i in 0..height {
        for j in 0..width {
            let idx = 4 * (i * width + j);
            assert_eq!(img.data[idx], grid[i][j][0]);
            assert_eq!(img.data[idx + 1], grid[i][j][1]);
            assert_eq!(img.data[idx + 2], grid[i][j][2]);
            assert_eq!(img.data[idx + 3], 255);
        }
    }
}

#[test]
fn converting_twice_gives_identical_buffers() {
    let grid = vec![
        vec![vec![9u8, 8, 7], vec![6u8, 5, 4]],
        vec![vec![3u8, 2, 1], vec![0u8, 255, 128]],
    ];
    let first = convert(&grid).unwrap();
    let second = convert(&grid).unwrap();
    assert_eq!(first.data, second.data);
    assert_eq!(first.width, second.width);
    assert_eq!(first.height, second.height);
}

#[test]
fn empty_grid_rejected() {
    let grid: Vec<Vec<Vec<u8>>> = vec![];
    assert!(!grid_is_valid(&grid));
    assert!(matches!(convert(&grid), Err(ConvertError::InvalidShape)));
}

#[test]
fn empty_first_row_rejected() {
    let grid: Vec<Vec<Vec<u8>>> = vec![vec![]];
    assert!(!grid_is_valid(&grid));
    assert!(matches!(convert(&grid), Err(ConvertError::InvalidShape)));
}

#[test]
fn irregular_rows_rejected() {
    let grid = vec![
        vec![vec![1u8, 2, 3]],
        vec![vec![4u8, 5, 6], vec![7u8, 8, 9]],
    ];
    assert!(!grid_is_valid(&grid));
    assert!(matches!(convert(&grid), Err(ConvertError::InvalidShape)));
}

#[test]
fn wrong_channel_count_rejected() {
    let grid = vec![vec![vec![1u8, 2]]];
    assert!(!grid_is_valid(&grid));
    assert!(matches!(convert(&grid), Err(ConvertError::InvalidShape)));

    let grid = vec![vec![vec![1u8, 2, 3, 4]]];
    assert!(!grid_is_valid(&grid));
    assert!(matches!(convert(&grid), Err(ConvertError::InvalidShape)));
}

#[test]
fn valid_grid_accepted() {
    let grid = vec![vec![vec![1u8, 2, 3], vec![4u8, 5, 6]]];
    assert!(grid_is_valid(&grid));
    assert!(convert(&grid).is_ok());
}
