use swarm_core::collapse_overwrite;
use swarm_core::split_cr_lines;
use swarm_core::strip_ansi_fast;
use swarm_core::tail_from_content;
use swarm_core::tail_from_window;
use swarm_core::window_start;
use swarm_core::RecencyBuffer;
use swarm_core::WINDOW_CAP;

#[test]
fn empty_window_yields_nothing() {
    let r = tail_from_window(&Vec::new(), 3);
    assert!(r.is_empty());
}

#[test]
fn zero_capacity_yields_nothing() {
    let r = tail_from_window(&b"a\nb\nc\n".to_vec(), 0);
    assert!(r.is_empty());
}

#[test]
fn capacity_bound_keeps_last_lines() {
    let window = b"a\nb\nc\nd\ne\n".to_vec();
    let r = tail_from_window(&window, 3);
    assert_eq!(r, vec!["c".to_string(), "d".to_string(), "e".to_string()]);
    let all = tail_from_window(&window, 10);
    assert_eq!(all.len(), 5);
}

#[test]
fn ordering_last_two() {
    let window = b"a\nb\nc\nd\ne\n".to_vec();
    let r = tail_from_window(&window, 2);
    assert_eq!(r, vec!["d".to_string(), "e".to_string()]);
}

#[test]
fn carriage_return_collapses_to_final_state() {
    let window = b"10%\r50%\r100%\n".to_vec();
    let r = tail_from_window(&window, 5);
    assert_eq!(r, vec!["100%".to_string()]);
}

#[test]
fn csi_sequences_are_stripped() {
    assert_eq!(strip_ansi_fast("\x1b[31mHello\x1b[0m"), "Hello");
    let window = b"\x1b[31mHello\x1b[0m\n".to_vec();
    let r = tail_from_window(&window, 5);
    assert_eq!(r, vec!["Hello".to_string()]);
}

#[test]
fn csi_with_several_params_is_stripped() {
    assert_eq!(strip_ansi_fast("\x1b[1;32mOK\x1b[0m done"), "OK done");
}

#[test]
fn osc_sequence_ended_by_bel_is_stripped() {
    assert_eq!(strip_ansi_fast("\x1b]0;title\x07Hello"), "Hello");
    let window = b"\x1b]0;title\x07Hello\n".to_vec();
    let r = tail_from_window(&window, 5);
    assert_eq!(r, vec!["Hello".to_string()]);
}

#[test]
fn osc_sequence_ended_by_esc_backslash_is_stripped() {
    assert_eq!(strip_ansi_fast("\x1b]0;title\x1b\\Hello"), "Hello");
}

#[test]
fn two_character_escape_is_discarded_whole() {
    assert_eq!(strip_ansi_fast("\x1bAhello"), "hello");
}

#[test]
fn bare_carriage_return_is_dropped_by_stripper() {
    assert_eq!(strip_ansi_fast("a\rb"), "ab");
}

#[test]
fn blank_after_processing_lines_are_dropped() {
    let r = tail_from_window(&b"\r\n".to_vec(), 5);
    assert!(r.is_empty());
    let r = tail_from_window(&b"\x1b[2J\n".to_vec(), 5);
    assert!(r.is_empty());
    let r = tail_from_window(&b"keep\n\r\n\x1b[0m\nalso\n".to_vec(), 5);
    assert_eq!(r, vec!["keep".to_string(), "also".to_string()]);
}

#[test]
fn invalid_utf8_line_is_dropped_silently() {
    let mut window = b"ok\n".to_vec();
    window.extend_from_slice(&[0xff, 0xfe, 0x0a]);
    window.extend_from_slice(b"after\n");
    let r = tail_from_window(&window, 5);
    assert_eq!(r, vec!["ok".to_string(), "after".to_string()]);
}

#[test]
fn non_ascii_text_passes_through() {
    let window = "héllo wörld\n".as_bytes().to_vec();
    let r = tail_from_window(&window, 5);
    assert_eq!(r, vec!["héllo wörld".to_string()]);
}

#[test]
fn last_line_without_newline_is_kept() {
    let r = tail_from_window(&b"a\nb".to_vec(), 5);
    assert_eq!(r, vec!["a".to_string(), "b".to_string()]);
}

#[test]
fn window_bound_ignores_bytes_before_the_window() {
    let mut content = b"old line\n".to_vec();
    for _ in 0..13000 {
        content.extend_from_slice(b"filler\n");
    }
    assert!(content.len() > WINDOW_CAP);
    let r = tail_from_content(&content, 20000, WINDOW_CAP);
    assert!(!r.iter().any(|l| l == "old line"));
    assert_eq!(r.last().unwrap(), "filler");
}

#[test]
fn small_content_fits_entirely_in_window() {
    let content = b"a\nb\n".to_vec();
    let r = tail_from_content(&content, 10, WINDOW_CAP);
    assert_eq!(r, vec!["a".to_string(), "b".to_string()]);
}

#[test]
fn split_cr_lines_drops_empty_pieces() {
    assert_eq!(split_cr_lines("a\r\rb\r"), vec!["a", "b"]);
    assert_eq!(split_cr_lines("10%\r50%\r100%"), vec!["10%", "50%", "100%"]);
    assert!(split_cr_lines("\r\r").is_empty());
    assert!(split_cr_lines("\r").is_empty());
}

#[test]
fn split_cr_lines_keeps_input_without_carriage_return_whole() {
    assert_eq!(split_cr_lines("plain"), vec!["plain"]);
    assert_eq!(split_cr_lines(""), vec![""]);
}

#[test]
fn collapse_overwrite_keeps_last_piece() {
    assert_eq!(collapse_overwrite("10%\r50%\r100%"), "100%");
    assert_eq!(collapse_overwrite("a\r"), "a");
    assert_eq!(collapse_overwrite("\r\r"), "");
    assert_eq!(collapse_overwrite("plain"), "plain");
}

#[test]
fn recency_buffer_evicts_oldest() {
    let mut buf = RecencyBuffer::new(2);
    buf.push("a".to_string());
    buf.push("b".to_string());
    buf.push("c".to_string());
    assert_eq!(buf.into_lines(), vec!["b".to_string(), "c".to_string()]);
}

#[test]
fn recency_buffer_with_zero_capacity_stays_empty() {
    let mut buf = RecencyBuffer::new(0);
    buf.push("a".to_string());
    assert!(buf.into_lines().is_empty());
}

#[test]
fn window_start_arithmetic() {
    assert_eq!(window_start(100, 65536), 0);
    assert_eq!(window_start(65536, 65536), 0);
    assert_eq!(window_start(70000, 65536), 4464);
    assert_eq!(window_start(0, 65536), 0);
}
