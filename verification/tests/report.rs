use site_crawler::fetch::ResponseResult;
use site_crawler::report::{
    classify, excluding, exit_code, fetching, log_result, plain_text, starting, summary, Ending,
    Print, ResultState, Stream, Tone,
};
use site_crawler::status::Status;

fn result(status: Option<u16>, size: Option<usize>) -> ResponseResult {
    ResponseResult {
        from: "/".to_string(),
        url: "https://example.com/page".to_string(),
        status: status.map(|c| Status::new(c).unwrap()),
        size,
        error: None,
        message: None,
    }
}

fn text(print: &Print) -> String {
    plain_text(&print.segments)
}

fn tones(print: &Print) -> Vec<Tone> {
    print.segments.iter().map(|s| s.tone).collect()
}

#[test]
fn healthy_page_is_no_error() {
    assert!(!classify(&result(Some(200), Some(200))));
    assert!(!classify(&result(Some(204), Some(5000))));
    assert!(!classify(&result(Some(299), Some(1_000_000))));
}

#[test]
fn missing_or_bad_status_is_an_error() {
    assert!(classify(&result(None, Some(5000))));
    assert!(classify(&result(Some(404), Some(5000))));
    assert!(classify(&result(Some(500), Some(5000))));
    assert!(classify(&result(Some(301), Some(5000))));
    assert!(classify(&result(Some(199), Some(5000))));
}

#[test]
fn small_or_unknown_body_is_an_error() {
    assert!(classify(&result(Some(200), None)));
    assert!(classify(&result(Some(200), Some(0))));
    assert!(classify(&result(Some(200), Some(199))));
    assert!(!classify(&result(Some(200), Some(200))));
}

#[test]
fn body_of_150_bytes_with_status_200_is_an_error_line() {
    let mut state = ResultState::default();
    let prints = log_result(result(Some(200), Some(150)), &mut state, 0, false);
    assert_eq!(prints.len(), 1);
    assert_eq!(prints[0].stream, Stream::Stderr);
    assert_eq!(prints[0].ending, Ending::Newline);
    assert_eq!(state.count, 1);
    assert_eq!(state.error_count, 1);
    assert_eq!(exit_code(&state), 1);
    assert_eq!(tones(&prints[0])[1], Tone::Good);
    assert_eq!(tones(&prints[0])[3], Tone::Bad);
}

#[test]
fn line_is_laid_out_in_columns() {
    let mut state = ResultState::default();
    let prints = log_result(result(Some(200), Some(1234)), &mut state, 0, true);
    assert_eq!(
        text(&prints[0]),
        " [1/0]      200 OK        [    1 KB] / -> https://example.com/page"
    );
    assert_eq!(
        text(&prints[0]),
        format!(
            " {: <10} {: <13} [{: >5} KB] {} -> {}",
            "[1/0]", "200 OK", "1", "/", "https://example.com/page"
        )
    );
    assert_eq!(tones(&prints[0]), vec![Tone::Plain, Tone::Good, Tone::Plain, Tone::Good, Tone::Plain]);
}

#[test]
fn line_counts_results_and_shows_what_is_outstanding() {
    let mut state = ResultState { count: 41, error_count: 3, last_len: 0 };
    let prints = log_result(result(Some(404), Some(987_654)), &mut state, 17, true);
    assert_eq!(
        text(&prints[0]),
        format!(
            " {: <10} {: <13} [{: >5} KB] {} -> {}",
            "[42/17]", "404 Not Found", "987", "/", "https://example.com/page"
        )
    );
    assert_eq!(state.count, 42);
    assert_eq!(state.error_count, 4);
    assert_eq!(tones(&prints[0])[1], Tone::Bad);
    assert_eq!(tones(&prints[0])[3], Tone::Good);
}

#[test]
fn line_shows_error_and_question_mark_where_nothing_is_known() {
    let mut state = ResultState::default();
    let prints = log_result(result(None, None), &mut state, 2, false);
    assert_eq!(
        text(&prints[0]),
        format!(
            " {: <10} {: <13} [{: >5} KB] {} -> {}",
            "[1/2]", "ERROR", "?", "/", "https://example.com/page"
        )
    );
    assert_eq!(tones(&prints[0])[1], Tone::Bad);
    assert_eq!(tones(&prints[0])[3], Tone::Unknown);
    assert_eq!(prints[0].stream, Stream::Stderr);
}

#[test]
fn line_does_not_cut_a_long_status() {
    let mut state = ResultState::default();
    let prints = log_result(result(Some(500), Some(100_000)), &mut state, 0, true);
    assert_eq!(
        text(&prints[0]),
        " [1/0]      500 Internal Server Error [  100 KB] / -> https://example.com/page"
    );
}

#[test]
fn line_truncates_path_and_url() {
    let long_path = "/".to_string() + &"p".repeat(40);
    let long_url = "https://example.com/".to_string() + &"u".repeat(80);
    let r = ResponseResult {
        from: long_path.clone(),
        url: long_url.clone(),
        status: Status::new(200),
        size: Some(2000),
        error: None,
        message: None,
    };
    let mut state = ResultState::default();
    let prints = log_result(r, &mut state, 0, true);
    let shown = text(&prints[0]);
    let expected_from: String = long_path.chars().take(30).collect::<String>() + "...";
    let expected_url: String = long_url.chars().take(60).collect::<String>() + "...";
    assert!(shown.ends_with(&format!(" KB] {expected_from} -> {expected_url}")));
}

#[test]
fn quiet_success_is_overwritten_by_the_next_line() {
    let mut state = ResultState::default();
    let prints = log_result(result(Some(200), Some(1234)), &mut state, 3, false);
    assert_eq!(prints.len(), 1);
    assert_eq!(prints[0].stream, Stream::Stdout);
    assert_eq!(prints[0].ending, Ending::Return);
    let bare = " [1/3]      200 OK        [    1 KB] / -> https://example.com/page";
    assert_eq!(text(&prints[0]), bare);
    assert_eq!(state.last_len, bare.len());
    assert_eq!(state.error_count, 0);
}

#[test]
fn verbose_success_stays_and_is_not_filled() {
    let mut state = ResultState { count: 0, error_count: 0, last_len: 500 };
    let prints = log_result(result(Some(200), Some(1234)), &mut state, 3, true);
    assert_eq!(prints[0].stream, Stream::Stdout);
    assert_eq!(prints[0].ending, Ending::Newline);
    assert_eq!(prints[0].segments.len(), 5);
    let bare = " [1/3]      200 OK        [    1 KB] / -> https://example.com/page";
    assert_eq!(text(&prints[0]), bare);
    assert_eq!(state.last_len, bare.len());
}

#[test]
fn shorter_line_is_filled_up_to_the_one_before() {
    let mut state = ResultState::default();
    let long = ResponseResult {
        from: "/".to_string(),
        url: "https://example.com/a/much/longer/address".to_string(),
        status: Status::new(200),
        size: Some(300),
        error: None,
        message: None,
    };
    let first = log_result(long, &mut state, 1, false);
    let first_len = text(&first[0]).len();
    assert_eq!(state.last_len, first_len);
    let short = ResponseResult {
        from: "/".to_string(),
        url: "https://example.com/b".to_string(),
        status: Status::new(200),
        size: Some(300),
        error: None,
        message: None,
    };
    let second = log_result(short, &mut state, 0, false);
    let shown = text(&second[0]);
    assert_eq!(shown.len(), first_len);
    assert_eq!(shown.trim_end(), " [2/0]      200 OK        [    0 KB] / -> https://example.com/b");
    assert_eq!(state.last_len, shown.trim_end().len());
    assert_eq!(second[0].segments.last().unwrap().tone, Tone::Plain);
}

#[test]
fn error_line_is_filled_but_not_remembered() {
    let mut state = ResultState { count: 5, error_count: 0, last_len: 100 };
    let prints = log_result(result(Some(404), Some(1234)), &mut state, 0, false);
    assert_eq!(prints[0].stream, Stream::Stderr);
    assert_eq!(prints[0].ending, Ending::Newline);
    assert_eq!(text(&prints[0]).len(), 100);
    assert_eq!(state.last_len, 100);
    assert_eq!(state.error_count, 1);
    assert_eq!(state.count, 6);
}

#[test]
fn notes_are_printed_only_when_verbose() {
    let make = || ResponseResult {
        from: "/".to_string(),
        url: "https://example.com/c".to_string(),
        status: None,
        size: None,
        error: Some("connection refused".to_string()),
        message: Some("3 URL's found".to_string()),
    };
    let mut state = ResultState::default();
    assert_eq!(log_result(make(), &mut state, 0, false).len(), 1);
    let prints = log_result(make(), &mut state, 0, true);
    assert_eq!(prints.len(), 3);
    assert_eq!(text(&prints[1]), "> 3 URL's found");
    assert_eq!(tones(&prints[1]), vec![Tone::Plain]);
    assert_eq!(prints[1].stream, Stream::Stdout);
    assert_eq!(prints[1].ending, Ending::Newline);
    assert_eq!(text(&prints[2]), "! connection refused");
    assert_eq!(tones(&prints[2]), vec![Tone::Plain, Tone::Bad]);
    assert_eq!(prints[2].segments[1].text, "connection refused");
    assert_eq!(prints[2].stream, Stream::Stdout);
}

#[test]
fn verbose_without_notes_prints_the_line_alone() {
    let mut state = ResultState::default();
    assert_eq!(log_result(result(Some(200), Some(1234)), &mut state, 0, true).len(), 1);
}

#[test]
fn errors_are_counted_one_by_one() {
    let mut state = ResultState::default();
    let run = [
        (Some(200), Some(1000), false),
        (Some(404), Some(1000), true),
        (Some(200), Some(10), true),
        (None, None, true),
        (Some(200), Some(900), false),
    ];
    let mut expected = 0;
    for (i, (status, size, bad)) in run.into_iter().enumerate() {
        log_result(result(status, size), &mut state, run.len() - 1 - i, false);
        if bad {
            expected += 1;
        }
        assert_eq!(state.count, i + 1);
        assert_eq!(state.error_count, expected);
        assert_eq!(exit_code(&state), if expected > 0 { 1 } else { 0 });
    }
    assert_eq!(state.error_count, 3);
}

#[test]
fn exit_code_is_zero_without_errors() {
    assert_eq!(exit_code(&ResultState::default()), 0);
    assert_eq!(exit_code(&ResultState { count: 10, error_count: 0, last_len: 70 }), 0);
    assert_eq!(exit_code(&ResultState { count: 10, error_count: 1, last_len: 70 }), 1);
    assert_eq!(exit_code(&ResultState { count: 10, error_count: 10, last_len: 0 }), 1);
}

#[test]
fn summary_without_errors() {
    let state = ResultState { count: 3, error_count: 0, last_len: 0 };
    let print = summary("example.com", "12.3", &state);
    assert_eq!(
        text(&print),
        "<<< finished example.com, time elapsed: 12.3s, total pages: 3, no errors"
    );
    assert_eq!(tones(&print), vec![Tone::Plain, Tone::Good, Tone::Plain]);
    assert_eq!(print.segments[1].text, "no errors");
    assert_eq!(print.stream, Stream::Stdout);
    assert_eq!(print.ending, Ending::Newline);
}

#[test]
fn summary_with_errors() {
    let state = ResultState { count: 120, error_count: 7, last_len: 0 };
    let print = summary("example.com", "0.5", &state);
    assert_eq!(
        text(&print),
        "<<< finished example.com, time elapsed: 0.5s, total pages: 120, errors: 7"
    );
    assert_eq!(print.segments[1].text, "errors: 7");
    assert_eq!(print.segments[1].tone, Tone::Bad);
}

#[test]
fn summary_wipes_out_the_last_line() {
    let state = ResultState { count: 1, error_count: 0, last_len: 90 };
    let print = summary("h", "1.0", &state);
    let shown = text(&print);
    assert_eq!(shown.len(), 90);
    assert_eq!(shown.trim_end(), "<<< finished h, time elapsed: 1.0s, total pages: 1, no errors");
}

#[test]
fn plain_text_joins_the_segments() {
    let mut state = ResultState::default();
    let prints = log_result(result(Some(200), Some(1234)), &mut state, 0, true);
    let joined: String = prints[0].segments.iter().map(|s| s.text.as_str()).collect();
    assert_eq!(plain_text(&prints[0].segments), joined);
    assert_eq!(plain_text(&Vec::new()), "");
}

#[test]
fn notices_are_plain_lines_that_stay() {
    let lines = [
        (starting("example.com"), ">>> starting example.com"),
        (fetching("https://example.com/a"), "> fetching https://example.com/a"),
        (excluding("https://example.com/b"), "> exclude: https://example.com/b"),
    ];
    for (print, expected) in lines {
        assert_eq!(text(&print), expected);
        assert_eq!(tones(&print), vec![Tone::Plain]);
        assert_eq!(print.stream, Stream::Stdout);
        assert_eq!(print.ending, Ending::Newline);
    }
}
