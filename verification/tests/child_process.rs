use fractal_zoom::child_process::{reader_step, ChildLine, ChildStream, LineRead};

fn read(text: &str) -> LineRead {
    LineRead::Read { len: text.len(), line: text.to_string() }
}

#[test]
fn line_of_the_output_stream_is_passed_on() {
    let step = reader_step(ChildStream::StdOut, read("built\n"));
    assert!(step.proceed);
    assert!(matches!(step.message, Some(ChildLine::StdOut(line)) if line == "built\n"));
}

#[test]
fn line_of_the_error_stream_is_passed_on() {
    let step = reader_step(ChildStream::StdErr, read("warning\n"));
    assert!(step.proceed);
    assert!(matches!(step.message, Some(ChildLine::StdErr(line)) if line == "warning\n"));
}

#[test]
fn end_of_stream_stops_the_reader_silently() {
    for stream in [ChildStream::StdOut, ChildStream::StdErr] {
        let step = reader_step(stream, read(""));
        assert!(!step.proceed);
        assert!(step.message.is_none());
    }
}

#[test]
fn failed_read_terminates_the_output_stream() {
    let step = reader_step(ChildStream::StdOut, LineRead::Failed);
    assert!(!step.proceed);
    assert!(matches!(step.message, Some(ChildLine::Term)));
}

#[test]
fn failed_read_stops_the_error_stream_silently() {
    let step = reader_step(ChildStream::StdErr, LineRead::Failed);
    assert!(!step.proceed);
    assert!(step.message.is_none());
}
