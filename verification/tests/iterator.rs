use ditherpunker::utils::iterator::{GridIterator, ParGridIterator};

const BENCH_IMAGE_SIZE: usize = 300;

fn missing_pixel(data: &[bool]) -> bool {
    let missed_pixel = data.iter().enumerate().find_map(|(idx, val)| match *val {
        true => None,
        false => Some(idx),
    });
    if let Some(pixel) = missed_pixel {
        let x = pixel % BENCH_IMAGE_SIZE;
        let y = pixel / BENCH_IMAGE_SIZE;
        println!("missed pixel {}: {} {}", pixel, x, y);
    }
    missed_pixel.is_some()
}

#[test]
fn test_grid_iterator_visits_indices() {
    let mut visit = vec![false; BENCH_IMAGE_SIZE * BENCH_IMAGE_SIZE];
    let mut it = GridIterator::new(BENCH_IMAGE_SIZE, BENCH_IMAGE_SIZE);
    while let Some((x, y, idx)) = it.next() {
        assert_eq!(
            BENCH_IMAGE_SIZE * y + x,
            idx,
            "1D pixel index missmatches 2D coordinates"
        );
        assert!(!visit[idx], "Pixel visited twice");
        visit[idx] = true;
    }
    assert!(!missing_pixel(&visit), "Pixel not visited");
}

#[test]
fn test_grid_iterator_len_counts_down() {
    let mut it = GridIterator::new(5, 4);
    assert_eq!(it.len(), 20);
    let mut seen = 0;
    while let Some(_) = it.next() {
        seen += 1;
        assert_eq!(it.len(), 20 - seen);
    }
    assert_eq!(seen, 20);
}

#[test]
fn test_grid_iterator_empty_grid_yields_nothing() {
    let mut it = GridIterator::new(0, 7);
    assert!(it.next().is_none());
    let mut it = GridIterator::new(7, 0);
    assert!(it.next().is_none());
}

#[test]
fn test_par_grid_iterator_keeps_shape() {
    let it = ParGridIterator::new(11, 13);
    assert_eq!(it.width, 11);
    assert_eq!(it.height, 13);
}
