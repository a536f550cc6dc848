use image_convolution::kernel::{
    force_odd, generate_box_blur_kernel, generate_sharpen_kernel, Kernel,
};

fn cells(kernel: &Kernel) -> Vec<Vec<i32>> {
    let side = kernel.side();
    (0..side).map(|row| (0..side).map(|col| kernel.weight(col, row)).collect()).collect()
}

#[test]
fn box_blur_kernel_has_equal_weights_that_sum_to_one() {
    for size in [1usize, 3, 5, 7, 31] {
        let kernel = generate_box_blur_kernel(size);
        assert_eq!(kernel.side(), size);
        assert_eq!(kernel.divisor(), (size * size) as u64);
        let grid = cells(&kernel);
        assert_eq!(grid.len(), size);
        let mut total: i64 = 0;
        for row in &grid {
            assert_eq!(row.len(), size);
            for &cell in row {
                assert_eq!(cell, 1);
                total += cell as i64;
            }
        }
        assert_eq!(total as u64, kernel.divisor());
    }
}

#[test]
fn box_blur_weights_match_their_floating_point_form() {
    for size in [1usize, 3, 5, 9] {
        let kernel = generate_box_blur_kernel(size);
        let expected = 1.0 / (size * size) as f32;
        let mut sum = 0.0f32;
        for row in 0..size {
            for col in 0..size {
                let weight = kernel.weight(col, row) as f32 / kernel.divisor() as f32;
                assert_eq!(weight, expected);
                sum += weight;
            }
        }
        assert!((sum - 1.0).abs() < 1e-5, "sum was {}", sum);
    }
}

#[test]
fn box_blur_kernel_of_side_three_divides_by_nine() {
    let kernel = generate_box_blur_kernel(3);
    assert_eq!(cells(&kernel), vec![vec![1, 1, 1], vec![1, 1, 1], vec![1, 1, 1]]);
    assert_eq!(kernel.divisor(), 9);
}

#[test]
fn sharpen_kernel_is_the_fixed_matrix() {
    let kernel = generate_sharpen_kernel();
    assert_eq!(kernel.side(), 3);
    assert_eq!(kernel.divisor(), 1);
    assert_eq!(cells(&kernel), vec![vec![0, -1, 0], vec![-1, 5, -1], vec![0, -1, 0]]);
    let total: i32 = cells(&kernel).iter().flatten().sum();
    assert_eq!(total, 1);
}

#[test]
fn new_kernel_keeps_its_cells_and_divisor() {
    let kernel = Kernel::new(vec![vec![1, 2, 3], vec![4, 5, 6], vec![7, 8, 9]], 45).unwrap();
    assert_eq!(kernel.side(), 3);
    assert_eq!(kernel.divisor(), 45);
    assert_eq!(kernel.weight(0, 0), 1);
    assert_eq!(kernel.weight(2, 0), 3);
    assert_eq!(kernel.weight(0, 2), 7);
    assert_eq!(kernel.weight(1, 1), 5);
}

#[test]
fn new_kernel_accepts_a_single_cell() {
    let kernel = Kernel::new(vec![vec![-7]], 2).unwrap();
    assert_eq!(kernel.side(), 1);
    assert_eq!(kernel.weight(0, 0), -7);
    assert_eq!(kernel.divisor(), 2);
}

#[test]
fn new_kernel_rejects_an_empty_grid() {
    assert!(Kernel::new(vec![], 1).is_none());
}

#[test]
fn new_kernel_rejects_an_even_side() {
    assert!(Kernel::new(vec![vec![1, 1], vec![1, 1]], 4).is_none());
    assert!(Kernel::new(vec![vec![1; 4]; 4], 16).is_none());
}

#[test]
fn new_kernel_rejects_rows_of_uneven_length() {
    assert!(Kernel::new(vec![vec![1, 1, 1], vec![1, 1], vec![1, 1, 1]], 8).is_none());
    assert!(Kernel::new(vec![vec![1, 1, 1], vec![1, 1, 1], vec![1, 1, 1, 1]], 10).is_none());
    assert!(Kernel::new(vec![vec![1, 1, 1]], 3).is_none());
}

#[test]
fn new_kernel_rejects_a_zero_divisor() {
    assert!(Kernel::new(vec![vec![1]], 0).is_none());
}

#[test]
fn force_odd_moves_even_sizes_up_by_one() {
    assert_eq!(force_odd(0), 1);
    assert_eq!(force_odd(1), 1);
    assert_eq!(force_odd(2), 3);
    assert_eq!(force_odd(4), 5);
    assert_eq!(force_odd(5), 5);
    assert_eq!(force_odd(usize::MAX - 1), usize::MAX);
    assert_eq!(force_odd(usize::MAX), usize::MAX);
}
