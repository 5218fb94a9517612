use bud_template::{
    Configuration, Encoder, Error, HtmlEncoding, NoEncoding, Segment, SegmentKind, Template,
    WhitespaceTrimming,
};

fn quote(s: &str) -> String {
    let mut q = String::from("\"");
    for c in s.chars() {
        match c {
            '"' => q.push_str("\\\""),
            '\\' => q.push_str("\\\\"),
            '\n' => q.push_str("\\n"),
            _ => q.push(c),
        }
    }
    q.push('"');
    q
}

fn generate(template: &str, parameters: &[&str]) -> String {
    let template = Template::from_str(template);
    let parsed = template.parse().unwrap();
    let spellings: Vec<String> = parsed.literals().iter().map(|l| quote(l)).collect();
    let parameters: Vec<String> = parameters.iter().map(|p| p.to_string()).collect();
    parsed.to_bud_source("render", &parameters, &spellings)
}

fn literals(template: &str) -> Vec<String> {
    Template::from_str(template).parse().unwrap().literals()
}

fn segments(template: &str) -> Result<Vec<Segment>, Error> {
    Template::from_str(template).parse().map(|p| p.segments())
}

const NO_TRIM: WhitespaceTrimming = WhitespaceTrimming { trim_before: false, trim_after: false };

#[test]
fn html_encoding_test() {
    let mut encoded = String::new();
    HtmlEncoding.encode("&<>'\"unencoded", &mut encoded);
    assert_eq!(encoded, "&amp;&lt;&gt;&#39;&quot;unencoded");
}

#[test]
fn html_encoding_appends_and_keeps_other_chars() {
    let mut encoded = String::from("x:");
    HtmlEncoding.encode("safe & encoded", &mut encoded);
    assert_eq!(encoded, "x:safe &amp; encoded");
    let mut empty = String::new();
    HtmlEncoding.encode("", &mut empty);
    assert_eq!(empty, "");
    let mut unicode = String::new();
    HtmlEncoding.encode("é<ü", &mut unicode);
    assert_eq!(unicode, "é&lt;ü");
}

#[test]
fn no_encoding_copies() {
    let mut out = String::from("a");
    NoEncoding.encode("<&>", &mut out);
    assert_eq!(out, "a<&>");
}

#[test]
fn segments_of_hello_world() {
    let segs = segments("Hello, {{= name }}!").unwrap();
    assert_eq!(
        segs,
        vec![
            Segment { kind: SegmentKind::Raw, start: 0, end: 7 },
            Segment {
                kind: SegmentKind::Expression { trimming: NO_TRIM, safe: false },
                start: 10,
                end: 16,
            },
            Segment { kind: SegmentKind::Raw, start: 18, end: 19 },
        ]
    );
}

#[test]
fn command_classification() {
    let segs = segments("{{:=- x -}}{{ if y }}").unwrap();
    assert_eq!(
        segs[1],
        Segment {
            kind: SegmentKind::Expression {
                trimming: WhitespaceTrimming { trim_before: true, trim_after: true },
                safe: true,
            },
            start: 5,
            end: 8,
        }
    );
    assert_eq!(segs[3], Segment { kind: SegmentKind::Statement(NO_TRIM), start: 13, end: 19 });
    assert_eq!(segs.len(), 5);
}

#[test]
fn parse_is_repeatable() {
    let text = " {{=- \"a\" }} {{ end -}}\n tail";
    let first = segments(text).unwrap();
    let second = segments(text).unwrap();
    assert_eq!(first, second);
    assert_eq!(
        Template::from_string(text.to_string()).parse().unwrap().segments(),
        first
    );
}

#[test]
fn literal_template_is_one_segment() {
    let text = "plain { text } here";
    let segs = segments(text).unwrap();
    assert_eq!(segs, vec![Segment { kind: SegmentKind::Raw, start: 0, end: 19 }]);
    assert_eq!(literals(text), vec![text.to_string()]);
    assert_eq!(
        generate(text, &[]),
        "function render()\noutput := \"\"\noutput := output + \"plain { text } here\"\noutput\nend"
    );
}

#[test]
fn empty_template() {
    assert_eq!(generate("", &[]), "function render()\noutput := \"\"\n\noutput\nend");
}

#[test]
fn escaped_and_unescaped_markers() {
    assert_eq!(
        generate(r#"{{:= "unsafe & not encoded" }}/{{= "safe & encoded" }}"#, &[]),
        "function render()\noutput := \"\"\noutput := output + ((\"unsafe & not encoded\") as String) + \"/\" + encode((\"safe & encoded\") as String)\noutput\nend"
    );
}

#[test]
fn trim_combinations() {
    assert_eq!(literals(r#" {{= "a" }} "#), vec![" ", " "]);
    assert_eq!(literals(r#" {{=- "a" -}} "#), vec!["", ""]);
    assert_eq!(literals(r#" {{=- "a" }} "#), vec!["", " "]);
    assert_eq!(literals(r#" {{= "a" -}} "#), vec![" ", ""]);
    assert_eq!(
        generate(r#" {{=- "a" -}} "#, &[]),
        "function render()\noutput := \"\"\noutput := output + \"\" + encode((\"a\") as String) + \"\"\noutput\nend"
    );
}

#[test]
fn trimming_around_statements() {
    let text = "\n    {{- if true -}}\n        {{= \"a\" -}}\n    {{ end -}}\n  ";
    assert_eq!(literals(text), vec!["", "", "", ""]);
    assert_eq!(
        generate(text, &[]),
        "function render()\noutput := \"\"\noutput := output + \"\"\nif true\noutput := output + \"\" + encode((\"a\") as String) + \"\"\nend\noutput := output + \"\"\noutput\nend"
    );
}

#[test]
fn loop_statement_program() {
    assert_eq!(
        generate("{{ loop for i := 1 to 5 inclusive }}{{= i }}{{ end }}", &[]),
        "function render()\noutput := \"\"\nloop for i := 1 to 5 inclusive\noutput := output + encode((i) as String)\nend\n\noutput\nend"
    );
}

#[test]
fn named_parameters() {
    assert_eq!(
        generate("Hello, {{= name }}!", &["name"]),
        "function render(name)\noutput := \"\"\noutput := output + \"Hello, \" + encode((name) as String) + \"!\"\noutput\nend"
    );
    assert_eq!(
        generate("{{:= a }}{{:= b }}", &["a", "b", "c"]),
        "function render(a, b, c)\noutput := \"\"\noutput := output + ((a) as String) + ((b) as String)\noutput\nend"
    );
}

#[test]
fn missing_end_braces() {
    assert_eq!(segments("Hello {{= name ").unwrap_err(), Error::MissingEndBraces);
    assert_eq!(segments("{{ a {{ b }}").unwrap_err(), Error::MissingEndBraces);
    assert_eq!(segments("{{").unwrap_err(), Error::MissingEndBraces);
}

#[test]
fn unexpected_end_braces() {
    assert_eq!(segments("a }} b").unwrap_err(), Error::UnexpectedEndBrances);
    assert_eq!(segments("{{= a }} b }} c").unwrap_err(), Error::UnexpectedEndBrances);
    assert_eq!(segments("{{ a }}}").unwrap().len(), 3);
}

#[test]
fn multibyte_text_counts_chars() {
    let segs = segments("é{{= x }}ü").unwrap();
    assert_eq!(segs[0], Segment { kind: SegmentKind::Raw, start: 0, end: 1 });
    assert_eq!(segs[2], Segment { kind: SegmentKind::Raw, start: 9, end: 10 });
    assert_eq!(literals("\u{3000}{{- x }}"), vec!["", ""]);
}

#[test]
fn configurations() {
    let html = Configuration::for_html();
    assert!(!html.auto_trim);
    let trimmed = html.auto_trim();
    assert!(trimmed.auto_trim);
    let plain = trimmed.with_encoder(NoEncoding);
    assert!(plain.auto_trim);
    let default: Configuration<NoEncoding> = Default::default();
    assert!(!default.auto_trim);
    let mut out = String::new();
    default.encoder.encode("<", &mut out);
    assert_eq!(out, "<");
}

#[test]
fn template_equality_and_clone() {
    let a = Template::from_str("x {{= y }}");
    let b = Template::from_string("x {{= y }}".to_string());
    assert!(a == b);
    assert!(a.clone() == b);
    assert!(a != Template::from_str("x"));
    assert_eq!(a.source(), "x {{= y }}");
}
