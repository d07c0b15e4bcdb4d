use nfm::utils::{format_size, Clipboard};
use nfm::view::scroll_to_show;

fn float_reference(size: u64) -> String {
    let kb: u64 = 1024;
    let mb = kb * 1024;
    let gb = mb * 1024;
    if size >= gb {
        format!("{:.2} GB", size as f64 / gb as f64)
    } else if size >= mb {
        format!("{:.2} MB", size as f64 / mb as f64)
    } else if size >= kb {
        format!("{:.2} KB", size as f64 / kb as f64)
    } else {
        format!("{} B", size)
    }
}

#[test]
fn format_size_bytes() {
    assert_eq!(format_size(0), "0 B");
    assert_eq!(format_size(1), "1 B");
    assert_eq!(format_size(1023), "1023 B");
}

#[test]
fn format_size_units() {
    assert_eq!(format_size(1024), "1.00 KB");
    assert_eq!(format_size(1536), "1.50 KB");
    assert_eq!(format_size(1024 * 1024), "1.00 MB");
    assert_eq!(format_size(5 * 1024 * 1024 + 1024 * 1024 / 4), "5.25 MB");
    assert_eq!(format_size(1024 * 1024 * 1024), "1.00 GB");
    assert_eq!(format_size(u64::MAX), "17179869184.00 GB");
}

#[test]
fn format_size_rounds_like_float_formatting() {
    // 1029 / 1024 lies just below a rounding tie, 1152 / 1024 sits on one.
    assert_eq!(format_size(1029), float_reference(1029));
    assert_eq!(format_size(1152), float_reference(1152));
    assert_eq!(format_size(1048575), "1024.00 KB");
    let mut samples: Vec<u64> = Vec::new();
    let mut x: u64 = 1;
    while x < u64::MAX / 3 {
        samples.push(x);
        samples.push(x + 1);
        samples.push(x - 1);
        samples.push(x.wrapping_mul(7) / 5);
        x = x * 3 + 1;
    }
    for s in [1000u64, 1023, 1024, 10239, 10240, 1048575, 1048576, 1073741823, 1073741824,
        123456789, 987654321987, u64::MAX - 1, u64::MAX]
    {
        samples.push(s);
    }
    for s in samples {
        assert_eq!(format_size(s), float_reference(s), "size {}", s);
    }
}

#[test]
fn clipboard_text_and_file_slots() {
    let mut c = Clipboard::new();
    assert_eq!(c.get_text(), "");
    assert!(c.get_file().is_none());
    c.set_text("hello".to_string());
    assert_eq!(c.get_text(), "hello");
    c.set_file("/tmp/a".to_string(), true);
    assert_eq!(c.get_file(), Some(("/tmp/a".to_string(), true)));
    assert_eq!(c.get_text(), "hello");
    c.set_file("/tmp/b".to_string(), false);
    assert_eq!(c.get_file(), Some(("/tmp/b".to_string(), false)));
    c.clear_file();
    assert!(c.get_file().is_none());
    assert_eq!(c.get_text(), "hello");
}

#[test]
fn scrolling_keeps_cursor_visible() {
    assert_eq!(scroll_to_show(5, 0, 10), 0);
    assert_eq!(scroll_to_show(12, 0, 10), 3);
    assert_eq!(scroll_to_show(2, 4, 10), 2);
    for cursor in 0..40usize {
        for offset in 0..40usize {
            let r = scroll_to_show(cursor, offset, 7);
            assert!(r <= cursor && cursor < r + 7);
            if offset <= cursor && cursor < offset + 7 {
                assert_eq!(r, offset);
            }
        }
    }
}

#[test]
fn format_size_unit_follows_the_range() {
    for s in [0u64, 1023, 1024, 1048575, 1048576, 1073741823, 1073741824, u64::MAX] {
        let t = format_size(s);
        assert_eq!(t.ends_with(" B"), s < 1024, "{}", t);
        assert_eq!(t.ends_with(" KB"), (1024..1048576).contains(&s), "{}", t);
        assert_eq!(t.ends_with(" MB"), (1048576..1073741824).contains(&s), "{}", t);
        assert_eq!(t.ends_with(" GB"), s >= 1073741824, "{}", t);
    }
    assert_eq!(format_size(512), "512 B");
}
