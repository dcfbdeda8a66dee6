use child_supervisor::sink::{StderrForwarder, StderrSink};

fn received(receiver: &crossbeam_channel::Receiver<String>) -> Vec<String> {
    let mut lines = Vec::new();
    while let Ok(line) = receiver.try_recv() {
        lines.push(line);
    }
    lines
}

#[test]
fn a_published_line_arrives_on_the_channel() {
    let (sender, receiver) = crossbeam_channel::unbounded();
    let mut sink = StderrSink::new(sender);
    assert!(sink.publish("warning: unused".to_string()));
    assert_eq!(received(&receiver), vec!["warning: unused".to_string()]);
}

#[test]
fn a_channel_without_receiver_refuses_and_nothing_breaks() {
    let (sender, receiver) = crossbeam_channel::unbounded();
    drop(receiver);
    let mut sink = StderrSink::new(sender);
    assert!(!sink.publish("nobody listens".to_string()));
    assert!(!sink.publish("still nobody".to_string()));
    let mut forwarder = StderrForwarder::new();
    assert!(forwarder.forward(&mut sink, b"err1\nerr2\n"));
    assert!(forwarder.forward(&mut sink, b"err3\n"));
}

#[test]
fn error_lines_arrive_in_the_order_written() {
    let (sender, receiver) = crossbeam_channel::unbounded();
    let mut sink = StderrSink::new(sender);
    let mut forwarder = StderrForwarder::new();
    assert!(forwarder.forward(&mut sink, b"err1\nerr2\n"));
    assert_eq!(received(&receiver), vec!["err1".to_string(), "err2".to_string()]);
}

#[test]
fn error_lines_arrive_whole_however_they_were_read() {
    let (sender, receiver) = crossbeam_channel::unbounded();
    let mut sink = StderrSink::new(sender);
    let mut forwarder = StderrForwarder::new();
    assert!(forwarder.forward(&mut sink, b"er"));
    assert_eq!(received(&receiver), Vec::<String>::new());
    assert!(forwarder.forward(&mut sink, b"r1\r\ner"));
    assert_eq!(received(&receiver), vec!["err1".to_string()]);
    assert!(forwarder.forward(&mut sink, b""));
    assert!(forwarder.forward(&mut sink, b"r2\n\nerr4"));
    assert_eq!(received(&receiver), vec!["err2".to_string(), String::new()]);
}

#[test]
fn an_unfinished_error_line_is_never_published() {
    let (sender, receiver) = crossbeam_channel::unbounded();
    let mut sink = StderrSink::new(sender);
    let mut forwarder = StderrForwarder::new();
    assert!(forwarder.forward(&mut sink, b"whole\nhalf"));
    drop(forwarder);
    drop(sink);
    assert_eq!(received(&receiver), vec!["whole".to_string()]);
    assert!(receiver.recv().is_err());
}

#[test]
fn forwarding_ends_with_the_first_line_that_is_not_text() {
    let (sender, receiver) = crossbeam_channel::unbounded();
    let mut sink = StderrSink::new(sender);
    let mut forwarder = StderrForwarder::new();
    assert!(!forwarder.forward(&mut sink, b"fine\n\xff\xfe\nafter\n"));
    assert_eq!(received(&receiver), vec!["fine".to_string()]);
}

#[test]
fn one_sink_serves_one_forwarder_after_the_other() {
    let (sender, receiver) = crossbeam_channel::unbounded();
    let mut sink = StderrSink::new(sender);
    let mut first = StderrForwarder::new();
    assert!(first.forward(&mut sink, b"from the first\nlost half"));
    let mut second = StderrForwarder::new();
    assert!(second.forward(&mut sink, b"from the second\n"));
    assert_eq!(
        received(&receiver),
        vec!["from the first".to_string(), "from the second".to_string()]
    );
}

#[test]
fn text_beyond_ascii_is_forwarded_unchanged() {
    let (sender, receiver) = crossbeam_channel::unbounded();
    let mut sink = StderrSink::new(sender);
    let mut forwarder = StderrForwarder::new();
    assert!(forwarder.forward(&mut sink, "erreur: d\u{e9}j\u{e0} vu \u{2713}\n".as_bytes()));
    assert_eq!(received(&receiver), vec!["erreur: d\u{e9}j\u{e0} vu \u{2713}".to_string()]);
}
