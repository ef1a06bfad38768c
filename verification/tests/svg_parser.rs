use svgr2::{
    parse, parse_with_sink, Attribute, EndElement, ErrorMessage, FinishStartElement, ParseError,
    StartElement,
    SvgNode, SvgSink, Text, TreeSinkError,
};

#[derive(Debug, Default)]
struct LogSink<'src> {
    events: Vec<String>,
    _marker: std::marker::PhantomData<&'src ()>,
}

impl<'src> SvgSink<'src> for LogSink<'src> {
    type Error = std::convert::Infallible;

    fn start_element(&mut self, event: StartElement<'src>) -> Result<(), Self::Error> {
        self.events.push(format!("start:{}", event.name));
        Ok(())
    }

    fn attribute(&mut self, attr: Attribute<'src>) -> Result<(), Self::Error> {
        self.events.push(format!("attr:{}={:?}", attr.name, attr.value));
        Ok(())
    }

    fn finish_start_element(&mut self, event: FinishStartElement) -> Result<(), Self::Error> {
        self.events.push(format!("finish:self_closing={}", event.self_closing));
        Ok(())
    }

    fn end_element(&mut self, event: EndElement<'src>) -> Result<(), Self::Error> {
        self.events.push(format!("end:{}", event.name));
        Ok(())
    }

    fn text(&mut self, text: Text<'src>) -> Result<(), Self::Error> {
        self.events.push(format!("text:{}", text.value));
        Ok(())
    }
}

#[test]
fn emits_basic_events() {
    let mut sink = LogSink::default();

    parse_with_sink(r#"<svg viewBox="0 0 24 24"><path fill='none'/></svg>"#, &mut sink).unwrap();

    assert_eq!(
        sink.events,
        vec![
            "start:svg",
            "attr:viewBox=Some(\"0 0 24 24\")",
            "finish:self_closing=false",
            "start:path",
            "attr:fill=Some(\"none\")",
            "finish:self_closing=true",
            "end:svg",
        ]
    );
}

#[test]
fn builds_tree() {
    let doc = parse(r#"<svg viewBox="0 0 24 24"><path fill="none" /></svg>"#).unwrap();

    let SvgNode::Element(svg) = &doc.children[0] else {
        panic!("expected svg element");
    };

    assert_eq!(svg.name, "svg");
    assert_eq!(svg.attributes[0].name, "viewBox");
    assert_eq!(svg.attributes[0].value, Some("0 0 24 24"));
    assert_eq!(svg.children.len(), 1);

    let SvgNode::Element(path) = &svg.children[0] else {
        panic!("expected path element");
    };

    assert_eq!(path.name, "path");
    assert_eq!(path.attributes[0].name, "fill");
    assert_eq!(path.attributes[0].value, Some("none"));
}

#[test]
fn detects_mismatched_closing_tag() {
    let err = parse("<svg><g></svg>").unwrap_err();

    assert!(matches!(
        err,
        ParseError::Sink(TreeSinkError::MismatchedClosingTag {
            expected: "g",
            found: "svg",
            ..
        })
    ));
}

#[test]
fn parses_cdata() {
    let doc = parse("<svg><![CDATA[hello <world>]]></svg>").unwrap();

    let SvgNode::Element(svg) = &doc.children[0] else {
        panic!("expected svg");
    };

    let SvgNode::CData(cdata) = &svg.children[0] else {
        panic!("expected cdata");
    };

    assert_eq!(cdata.value, "hello <world>");
}

#[test]
fn reports_lines_and_columns() {
    let position = svgr2::line_col("ab\ncd", 4);
    assert_eq!((position.line, position.column), (2, 2));
    let position = svgr2::line_col("ab", 10);
    assert_eq!((position.line, position.column), (1, 3));
}

#[test]
fn diagnostics_place_syntax_errors() {
    let source = "<svg>\n<path d='x";
    let err = parse(source).unwrap_err();
    let diagnostic = err.diagnostic(source);
    assert_eq!(diagnostic.line, 2);
    assert!(diagnostic.message.starts_with("unclosed"));
}

/// Fails on the element named `stop`, and records every call it gets.
#[derive(Debug, Default)]
struct StopSink {
    calls: Vec<String>,
}

#[derive(Debug, PartialEq)]
struct Stopped(String);

impl ErrorMessage for Stopped {
    fn message(&self) -> String {
        format!("stopped at {}", self.0)
    }
}

impl<'src> SvgSink<'src> for StopSink {
    type Error = Stopped;

    fn start_element(&mut self, event: StartElement<'src>) -> Result<(), Self::Error> {
        self.calls.push(format!("start:{}", event.name));
        if event.name == "stop" {
            return Err(Stopped(event.name.to_string()));
        }
        Ok(())
    }

    fn attribute(&mut self, attr: Attribute<'src>) -> Result<(), Self::Error> {
        self.calls.push(format!("attr:{}", attr.name));
        Ok(())
    }

    fn finish_start_element(&mut self, _event: FinishStartElement) -> Result<(), Self::Error> {
        self.calls.push("finish".to_string());
        Ok(())
    }

    fn end_element(&mut self, event: EndElement<'src>) -> Result<(), Self::Error> {
        self.calls.push(format!("end:{}", event.name));
        Ok(())
    }

    fn text(&mut self, text: Text<'src>) -> Result<(), Self::Error> {
        self.calls.push(format!("text:{}", text.value));
        Ok(())
    }

    fn finish_document(&mut self) -> Result<(), Self::Error> {
        self.calls.push("done".to_string());
        Ok(())
    }
}

#[test]
fn the_sink_error_is_returned_and_no_call_follows_it() {
    let mut sink = StopSink::default();
    let err = parse_with_sink("<svg><stop a='1'/><g/></svg>", &mut sink).unwrap_err();
    assert_eq!(err, ParseError::Sink(Stopped("stop".to_string())));
    assert_eq!(sink.calls, vec!["start:svg", "finish", "start:stop"]);
    assert_eq!(err.message(), "sink error: stopped at stop");
}

#[test]
fn a_document_ends_with_finish_document() {
    let mut sink = StopSink::default();
    parse_with_sink("<svg>hi</svg>", &mut sink).unwrap();
    assert_eq!(sink.calls, vec!["start:svg", "finish", "text:hi", "end:svg", "done"]);
}

#[test]
fn events_before_a_syntax_error_stay_delivered() {
    let mut sink = LogSink::default();
    let err = parse_with_sink(r#"<a b="x"#, &mut sink).unwrap_err();
    assert!(matches!(err, ParseError::UnclosedQuote { .. }));
    assert_eq!(sink.events, vec!["start:a"]);

    let mut sink = LogSink::default();
    let err = parse_with_sink("<!-- x", &mut sink).unwrap_err();
    assert!(matches!(err, ParseError::ExpectedCommentEnd { .. }));
    assert!(sink.events.is_empty());
}

#[test]
fn a_tree_sink_error_message_follows_the_prefix() {
    let err = parse("<svg><g>").unwrap_err();
    assert_eq!(err.message(), "sink error: unclosed elements: svg, g");
}

#[test]
fn lines_count_line_feeds_and_columns_count_bytes_since_the_last() {
    let position = svgr2::line_col("a\nbc\ndef", 7);
    assert_eq!((position.line, position.column), (3, 3));
    let position = svgr2::line_col("a\nbc\ndef", 100);
    assert_eq!((position.line, position.column), (3, 4));
}

#[test]
fn a_document_has_no_more_events_than_its_bound() {
    let source = "<a><b/>t</a>";
    let mut sink = StopSink::default();
    parse_with_sink(source, &mut sink).unwrap();
    assert!(sink.calls.len() <= 2 * source.len() + 1);
    assert_eq!(sink.calls, vec!["start:a", "finish", "start:b", "finish", "text:t", "end:a", "done"]);
}

#[test]
fn white_space_between_tags_is_not_reported() {
    let mut sink = LogSink::default();
    parse_with_sink("<svg>  <g/>\n\t</svg>", &mut sink).unwrap();
    assert!(sink.events.iter().all(|e| !e.starts_with("text:")));
}

#[test]
fn a_sink_error_is_placed_at_the_start() {
    let source = "\n\n<svg><g>";
    let d = parse(source).unwrap_err().diagnostic(source);
    assert_eq!((d.line, d.column, d.span.start, d.span.end), (1, 1, 0, 0));
    assert_eq!(d.message, "sink error: unclosed elements: svg, g");
}
