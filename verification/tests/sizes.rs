use remote_files::size::format_file_size;

const KB: f64 = 1024.0;
const MB: f64 = KB * 1024.0;
const GB: f64 = MB * 1024.0;

fn in_double_precision(size: u64) -> String {
    let size = size as f64;
    if size >= GB {
        format!("{:.1} GB", size / GB)
    } else if size >= MB {
        format!("{:.1} MB", size / MB)
    } else if size >= KB {
        format!("{:.1} KB", size / KB)
    } else {
        format!("{} B", size as u64)
    }
}

#[test]
fn sizes_as_text() {
    assert_eq!(format_file_size(0), "0 B");
    assert_eq!(format_file_size(1), "1 B");
    assert_eq!(format_file_size(1023), "1023 B");
    assert_eq!(format_file_size(1024), "1.0 KB");
    assert_eq!(format_file_size(1536), "1.5 KB");
    assert_eq!(format_file_size(1_048_575), "1024.0 KB");
    assert_eq!(format_file_size(1_048_576), "1.0 MB");
    assert_eq!(format_file_size(1_073_741_823), "1024.0 MB");
    assert_eq!(format_file_size(1_073_741_824), "1.0 GB");
    assert_eq!(format_file_size(5_905_580_032), "5.5 GB");
    assert_eq!(format_file_size(u64::MAX), "17179869184.0 GB");
}

#[test]
fn ties_go_to_the_even_digit() {
    assert_eq!(format_file_size(1024 + 256), "1.2 KB");
    assert_eq!(format_file_size(1024 + 768), "1.8 KB");
    assert_eq!(format_file_size(2048 + 256), "2.2 KB");
}

#[test]
fn sizes_agree_with_double_precision() {
    for size in 0..200_000u64 {
        assert_eq!(format_file_size(size), in_double_precision(size));
    }
    let mut size: u64 = 1;
    for step in 0..200_000u64 {
        size = size.wrapping_mul(6_364_136_223_846_793_005).wrapping_add(1_442_695_040_888_963_407);
        let shifted = size >> (step % 64);
        assert_eq!(format_file_size(shifted), in_double_precision(shifted));
    }
}

#[test]
fn sizes_around_the_limits_of_exact_doubles() {
    let limit: u64 = 1 << 53;
    for shift in 0..11u32 {
        let base = limit << shift;
        for distance in 0..3000u64 {
            for size in [base.saturating_sub(distance), base.saturating_add(distance)] {
                assert_eq!(format_file_size(size), in_double_precision(size));
            }
        }
    }
    for distance in 0..5000u64 {
        let size = u64::MAX - distance;
        assert_eq!(format_file_size(size), in_double_precision(size));
    }
}
