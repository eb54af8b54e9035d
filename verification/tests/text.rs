use memthol::conf::{set_verb, usize_validator, verb, Conf, DEFAULT_ADDR, DEFAULT_DIR, DEFAULT_PORT};
use memthol::decimal::{decimal_text, parse_usize};
use memthol::layout::header::{
    code, emph, Header, StatsText, HEADER_INFO_LINE_BUTTON_HEIGHT_PX, HEADER_LINE_HEIGHT_PX,
};
use memthol::layout::html::{one, styled_node, Html};
use memthol::layout::numbers::{count_text, duration_text, size_text};
use memthol::store::AllocStats;
use memthol::layout::logo::{ocp_pic, LOGO_PATH_1, LOGO_PATH_12, LOGO_PATH_7};

fn text(text: &str) -> Html {
    Html::Text(text.to_string())
}

fn styled(tag: &str, style: &str, children: Vec<Html>) -> Html {
    Html::Node {
        tag: tag.to_string(),
        attrs: vec![("style".to_string(), style.to_string())],
        children,
    }
}

fn centered(inner: Html) -> Html {
    styled(
        "div",
        "display: table; width: 100%; height: 100%;",
        vec![styled(
            "div",
            "display: table-cell; padding: 0% 10px; white-space: nowrap; text-align: center; vertical-align: middle;",
            vec![inner],
        )],
    )
}

fn tile(width: &str, inner: Html) -> Html {
    let style = format!(
        "display: block; float: left; height: 100%; overflow: scroll; width: {}%;",
        width
    );
    styled("div", &style, vec![inner])
}

fn emphasized(inner: &str) -> Html {
    styled("b", "color: #c8f5fd;", vec![text(inner)])
}

#[test]
fn decimal_notation() {
    assert_eq!(decimal_text(0), "0");
    assert_eq!(decimal_text(7), "7");
    assert_eq!(decimal_text(10), "10");
    assert_eq!(decimal_text(1234567890), "1234567890");
    assert_eq!(decimal_text(u64::MAX), "18446744073709551615");
    for n in [0u64, 9, 99, 100, 101, 65535, 4294967296] {
        assert_eq!(decimal_text(n), n.to_string());
    }
}

#[test]
fn reading_integers() {
    assert_eq!(parse_usize("0"), Some(0));
    assert_eq!(parse_usize("7878"), Some(7878));
    assert_eq!(parse_usize("+5"), Some(5));
    assert_eq!(parse_usize("007"), Some(7));
    assert_eq!(parse_usize(&usize::MAX.to_string()), Some(usize::MAX));
    for bad in ["", "+", "-5", "-0", " 5", "5 ", "5a", "a", "++5", "5+", "12.5", "１２"] {
        assert_eq!(parse_usize(bad), None, "{:?}", bad);
    }
    assert_eq!(parse_usize("18446744073709551616"), None);
    assert_eq!(parse_usize("99999999999999999999999"), None);
    for n in [0usize, 1, 10, 99, 7878, usize::MAX - 1] {
        assert_eq!(parse_usize(&decimal_text(n as u64)), Some(n));
    }
    for bad in ["", "+", "-5", "x", "18446744073709551616", "+18446744073709551615"] {
        assert_eq!(parse_usize(bad), bad.parse::<usize>().ok(), "{:?}", bad);
    }
}

#[test]
fn validating_a_port() {
    assert_eq!(usize_validator("7878".to_string()), Ok(()));
    assert_eq!(usize_validator(DEFAULT_PORT.to_string()), Ok(()));
    assert_eq!(
        usize_validator("abc".to_string()),
        Err("expected integer, found `abc`".to_string())
    );
    assert_eq!(usize_validator("".to_string()), Err("expected integer, found ``".to_string()));
    assert_eq!(DEFAULT_ADDR, "localhost");
    assert_eq!(DEFAULT_DIR, ".");
}

#[test]
fn verbosity() {
    let mut conf = Conf::new();
    assert!(!verb(&conf));
    set_verb(&mut conf, true);
    assert!(verb(&conf));
    assert!(conf.verbose);
    set_verb(&mut conf, false);
    assert!(!verb(&conf));
}

#[test]
fn header_height() {
    let header = Header::new();
    assert_eq!(header.height_px(0), 60);
    assert_eq!(header.height_px(1), 100);
    assert_eq!(header.height_px(3), 180);
    assert_eq!(HEADER_LINE_HEIGHT_PX, 40);
    assert_eq!(HEADER_INFO_LINE_BUTTON_HEIGHT_PX, 45);
}

#[test]
fn emphasis_and_code() {
    assert_eq!(emph("12"), emphasized("12"));
    assert_eq!(
        code("/tmp/dumps"),
        styled(
            "b",
            "font-family: monospace; font-size: 100%; color: #ffb961;",
            vec![text("/tmp/dumps")]
        )
    );
    assert_eq!(Html::text("a"), text("a"));
    assert_eq!(one(text("a")), vec![text("a")]);
    assert_eq!(styled_node("p", "margin: 0px;", vec![]), styled("p", "margin: 0px;", vec![]));
}

#[test]
fn centering() {
    assert_eq!(Header::center(text("x")), centered(text("x")));
}

#[test]
fn three_columns() {
    let line = Header::three_part_line_with("height: 40px;", text("l"), text("c"), text("r"));
    assert_eq!(
        line,
        styled(
            "div",
            "height: 40px;",
            vec![tile("15", text("l")), tile("70", text("c")), tile("15", text("r"))]
        )
    );
}

#[test]
fn info_line() {
    let header = Header::new();
    let line = header.info_line(text("buttons"), text("stats"));
    let link = Html::Node {
        tag: "a".to_string(),
        attrs: vec![
            ("href".to_string(), "https://www.ocamlpro.com".to_string()),
            ("target".to_string(), "_blank".to_string()),
            ("style".to_string(), "height: 57px;".to_string()),
        ],
        children: vec![ocp_pic()],
    };
    assert_eq!(
        line,
        styled(
            "div",
            "height: 60px;",
            vec![
                tile("15", centered(text("buttons"))),
                tile("70", centered(text("stats"))),
                tile("15", centered(link)),
            ]
        )
    );
}

#[test]
fn statistics() {
    let header = Header::new();
    assert_eq!(
        header.format_stats(&None),
        text("No allocation statistics available at this moment...")
    );
    let stats = StatsText {
        start_time: "14:03:59".to_string(),
        start_date: "2020-05-17".to_string(),
        duration: "12.5s".to_string(),
        alloc_count: "1.2K".to_string(),
        total_size: "3.4Mi".to_string(),
        dump_dir: "/tmp/dumps".to_string(),
    };
    assert_eq!(
        header.format_stats(&Some(stats)),
        styled(
            "p",
            "margin: 0px;",
            vec![
                text("run started at "),
                emphasized("14:03:59 (LT)"),
                text(", on "),
                emphasized("2020-05-17"),
                text(", ran for "),
                emphasized("12.5s"),
                text(" with "),
                emphasized("1.2K"),
                text(" allocations, "),
                emphasized("3.4MiB"),
                text(" | "),
                styled(
                    "b",
                    "font-family: monospace; font-size: 100%; color: #ffb961;",
                    vec![text("/tmp/dumps")]
                ),
            ]
        )
    );
}

#[test]
fn header_and_buttons() {
    let header = Header::new();
    let whole = header.render(2, "#8dedff", "#313131", text("settings"), text("info"));
    assert_eq!(
        whole,
        styled(
            "header",
            "font-size: 130%; width: 100%; height: 140px; color: #8dedff; background-color: #313131; border-radius: 0px 0px 20px 20px; position: fixed; top: 0px; z-index: 600;",
            vec![text("settings"), text("info")]
        )
    );
    let buttons = header.info_line_buttons(text("+"), text("-"), text("more"));
    assert_eq!(
        buttons,
        Html::Fragment(vec![
            styled("div", "float: left; padding: 3px 0%;", vec![text("+")]),
            styled("div", "float: left; padding: 3px 0%;", vec![text("-")]),
            styled("div", "float: right; padding: 7px 0%;", vec![text("more")]),
        ])
    );
}

fn attribute<'a>(node: &'a Html, name: &str) -> Option<&'a str> {
    match node {
        Html::Node { attrs, .. } => {
            attrs.iter().find(|(key, _)| key == name).map(|(_, value)| value.as_str())
        }
        _ => None,
    }
}

#[test]
fn logo() {
    let (tag, attrs, shapes) = match ocp_pic() {
        Html::Node { tag, attrs, children } => (tag, attrs, children),
        other => panic!("unexpected markup {:?}", other),
    };
    assert_eq!(tag, "svg");
    let expected = [
        ("style", "width: auto; height: 57px;"),
        ("viewBox", "0 0 24205 6969"),
        ("fill", "none"),
        ("xmlns", "http://www.w3.org/2000/svg"),
    ];
    assert_eq!(attrs.len(), expected.len());
    for ((name, value), (wanted_name, wanted_value)) in attrs.iter().zip(expected) {
        assert_eq!((name.as_str(), value.as_str()), (wanted_name, wanted_value));
    }
    assert_eq!(shapes.len(), 12);
    for shape in &shapes {
        match shape {
            Html::Node { tag, children, .. } => {
                assert_eq!(tag, "path");
                assert!(children.is_empty());
            }
            other => panic!("unexpected markup {:?}", other),
        }
        assert!(attribute(shape, "d").unwrap().starts_with('M'));
    }
    assert_eq!(attribute(&shapes[0], "d"), Some(LOGO_PATH_1));
    assert_eq!(attribute(&shapes[0], "fill"), Some("white"));
    assert_eq!(attribute(&shapes[0], "stroke"), None);
    assert!(LOGO_PATH_1.starts_with("M16889.9 1909.06C16614.8 1909.06"));
    assert!(LOGO_PATH_1.ends_with("22078.1 2610.36 21739.4 2610.36Z"));
    assert_eq!(LOGO_PATH_1.len(), 1918);
    assert_eq!(attribute(&shapes[6], "d"), Some(LOGO_PATH_7));
    assert_eq!(LOGO_PATH_7.len(), 569);
    assert_eq!(attribute(&shapes[6], "fill"), Some("#CD5119"));
    assert_eq!(attribute(&shapes[6], "stroke"), Some("#832B03"));
    assert_eq!(attribute(&shapes[6], "stroke-width"), Some("257"));
    assert_eq!(attribute(&shapes[6], "stroke-linejoin"), Some("round"));
    assert_eq!(attribute(&shapes[7], "fill"), Some("#F88834"));
    assert_eq!(attribute(&shapes[7], "stroke-width"), Some("60"));
    assert_eq!(attribute(&shapes[8], "fill"), Some("#832B03"));
    assert_eq!(attribute(&shapes[9], "fill"), Some("#F88834"));
    assert_eq!(attribute(&shapes[10], "fill"), Some("#832B03"));
    assert_eq!(LOGO_PATH_12.len(), 555);
    assert_eq!(attribute(&shapes[11], "d"), Some(LOGO_PATH_12));
    assert_eq!(attribute(&shapes[11], "fill"), None);
    assert_eq!(attribute(&shapes[11], "stroke"), Some("#832B03"));
    assert_eq!(attribute(&shapes[11], "stroke-width"), Some("350"));
    let filled = shapes.iter().filter(|shape| attribute(shape, "fill") == Some("white")).count();
    assert_eq!(filled, 6);
}

#[test]
fn scaled_numbers() {
    let counts = [
        (0, "0"),
        (999, "999"),
        (1_000, "1.00K"),
        (1_234, "1.23K"),
        (1_999, "1.99K"),
        (999_999, "999.99K"),
        (1_000_000, "1.00M"),
        (1_050_000, "1.05M"),
        (2_500_000_000, "2.50G"),
        (7_000_000_000_000, "7.00T"),
        (1_000_000_000_000_000, "1.00P"),
        (u64::MAX, "18.44E"),
    ];
    for (number, text) in counts {
        assert_eq!(count_text(number), text);
    }
    let sizes = [
        (0, "0"),
        (1_023, "1023"),
        (1_024, "1.00Ki"),
        (1_536, "1.50Ki"),
        (1_048_575, "1023.99Ki"),
        (1_048_576, "1.00Mi"),
        (3 << 30, "3.00Gi"),
        (1 << 40, "1.00Ti"),
        (1 << 50, "1.00Pi"),
        (1 << 60, "1.00Ei"),
        (u64::MAX, "15.99Ei"),
    ];
    for (number, text) in sizes {
        assert_eq!(size_text(number), text);
    }
}

#[test]
fn durations() {
    let all = [
        (0, "0.000s"),
        (999_999, "0.000s"),
        (1_000_000, "0.001s"),
        (5_999_999, "0.005s"),
        (42_000_000, "0.042s"),
        (999_000_000, "0.999s"),
        (1_000_000_000, "1.000s"),
        (1_050_000_000, "1.050s"),
        (12_503_999_999, "12.503s"),
        (u64::MAX, "18446744073.709s"),
    ];
    for (nanos, text) in all {
        assert_eq!(duration_text(nanos), text);
    }
}

#[test]
fn statistics_written_out() {
    let stats = AllocStats {
        start_date: 1_600_000_000,
        duration: 12_503_000_000,
        alloc_count: 1_234,
        total_size: 3_565_158,
        dump_dir: "/tmp/dumps".to_string(),
    };
    let text = StatsText::new(&stats, "14:03:59".to_string(), "2020-05-17".to_string());
    assert_eq!(
        text,
        StatsText {
            start_time: "14:03:59".to_string(),
            start_date: "2020-05-17".to_string(),
            duration: "12.503s".to_string(),
            alloc_count: "1.23K".to_string(),
            total_size: "3.39Mi".to_string(),
            dump_dir: "/tmp/dumps".to_string(),
        }
    );
}
