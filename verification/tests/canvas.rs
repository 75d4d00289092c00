use imessage_database::message_types::digital_touch::fireball::DigitalTouchFireball;
use imessage_database::message_types::digital_touch::heartbeat::DigitalTouchHeartbeat;
use imessage_database::message_types::digital_touch::models::{Color, Point};
use imessage_database::message_types::digital_touch::render::{get_opacity_animation, SVGTapRender, TapPlacement};
use imessage_database::message_types::digital_touch::sketch::DigitalTouchSketch;
use imessage_database::message_types::digital_touch::tap::{DigitalTouchTap, TapData};
use imessage_database::util::ascii_canvas::AsciiCanvas;
use imessage_database::util::svg_canvas::SVGCanvas;

#[test]
fn ascii_canvas_starts_blank() {
    let canvas = AsciiCanvas::new(3, 2);
    assert_eq!(canvas.render(), "   \n   \n");
}

#[test]
fn ascii_canvas_draws_bresenham_line() {
    let mut canvas = AsciiCanvas::new(5, 3);
    canvas.draw_line(0, 0, 4, 2);
    assert_eq!(canvas.render(), "*    \n **  \n   **\n");
}

#[test]
fn ascii_canvas_draws_line_backwards_and_clips() {
    let mut canvas = AsciiCanvas::new(3, 3);
    canvas.draw_line(4, 0, 0, 0);
    assert_eq!(canvas.render(), "***\n   \n   \n");
    let mut single = AsciiCanvas::new(2, 2);
    single.draw_line(1, 1, 1, 1);
    assert_eq!(single.render(), "  \n *\n");
}

#[test]
fn ascii_canvas_steep_line_marks_one_cell_per_row() {
    let mut canvas = AsciiCanvas::new(3, 6);
    canvas.draw_line(0, 0, 2, 5);
    let text = canvas.render();
    assert_eq!(text, "*  \n*  \n * \n * \n  *\n  *\n");
    assert_eq!(text.matches('*').count(), 6);
}

#[test]
fn ascii_canvas_vertical_line() {
    let mut canvas = AsciiCanvas::new(2, 3);
    canvas.draw_line(1, 2, 1, 0);
    assert_eq!(canvas.render(), " *\n *\n *\n");
}

#[test]
fn svg_generate_elem() {
    assert_eq!(
        SVGCanvas::generate_elem("circle", vec![("cx", "1px".to_string()), ("fill", "none".to_string())], None),
        "<circle cx=\"1px\" fill=\"none\" />\n"
    );
    assert_eq!(
        SVGCanvas::generate_elem("g", vec![], Some("body".to_string())),
        "<g>\nbody\n</g>"
    );
}

#[test]
fn svg_canvas_document() {
    let mut canvas = SVGCanvas::square(250);
    assert_eq!(canvas.width(), 250);
    assert_eq!(canvas.height(), 250);
    canvas.set_title("title".to_string());
    canvas.write_elem("rect", vec![], None);
    canvas.add_def("a", "stop", vec![("id", "old".to_string())], None);
    canvas.add_def("b", "stop", vec![], None);
    canvas.add_def("a", "stop", vec![("offset", "1".to_string())], None);
    assert_eq!(
        canvas.render(),
        "<svg viewBox=\"0 0 250 250\" preserveAspectRatio=\"xMidYMid meet\" width=\"100%\" height=\"100%\" xmlns=\"http://www.w3.org/2000/svg\" xmlns:xlink=\"http://www.w3.org/1999/xlink\">\n<title>title</title>\n<defs>\n<stop offset=\"1\" id=\"a\" />\n\n<stop id=\"b\" />\n\n</defs>\n<rect />\n\n</svg>"
    );
}

fn animate(attribute: &str, first: (&str, &str), second: (&str, &str), delay: usize) -> String {
    format!(
        "<animate attributeName=\"{attribute}\" {}=\"{}\" {}=\"{}\" dur=\"1.5s\" begin=\"{delay}ms\" repeatCount=\"1\" restart=\"whenNotActive\" />\n",
        first.0, first.1, second.0, second.1
    )
}

#[test]
fn tap_render_svg() {
    let tap = DigitalTouchTap {
        id: "t".to_string(),
        taps: vec![
            Point { x: 0, y: 0, extra: TapData { color: Color::new(1, 2, 3, 4), ms_delay: 5 } },
            Point { x: 0, y: 0, extra: TapData { color: Color::new(5, 6, 7, 8), ms_delay: 10 } },
        ],
    };
    let mut canvas = SVGCanvas::square(250);
    tap.render_svg(
        &mut canvas,
        &[
            TapPlacement { x: 3, y: 4, degrees: 0 },
            TapPlacement { x: 30, y: 40, degrees: 0 },
        ],
    );
    let circle = |x: usize, y: usize, rgba: &str, delay: usize| {
        format!(
            "<circle cx=\"{x}px\" cy=\"{y}px\" fill=\"none\" stroke-width=\"30\" stroke=\"rgba({rgba})\">\n{}\n{}\n</circle>",
            animate("opacity", ("values", "0.0; 1.0; 0.0"), ("keyTimes", "0; 0.25; 1"), delay),
            animate("r", ("from", "0%"), ("to", "50%"), delay)
        )
    };
    let body = format!("{}{}", circle(3, 4, "1, 2, 3, 4", 6), circle(30, 40, "5, 6, 7, 8", 16));
    assert!(canvas.render().contains(&format!("</defs>\n{body}\n</svg>")));
    assert_eq!(
        get_opacity_animation(6),
        animate("opacity", ("values", "0.0; 1.0; 0.0"), ("keyTimes", "0; 0.25; 1"), 6)
    );
}

#[test]
fn sketch_render_svg() {
    let color = Color::new(9, 8, 7, 6);
    let sketch = DigitalTouchSketch {
        id: "s".to_string(),
        strokes: vec![vec![
            Point { x: 0, y: 0, extra: color },
            Point { x: 0, y: 0, extra: color },
        ]],
    };
    let mut canvas = SVGCanvas::square(250);
    sketch.render_svg(&mut canvas, &[vec![(1, 2), (3, 4)]]);
    assert!(canvas.render().contains(
        "<polyline points=\"1,2 3,4\" stroke-width=\"10px\" fill=\"none\" stroke=\"rgba(9, 8, 7, 6)\" />\n"
    ));
}

#[test]
fn fireball_render_svg() {
    let fireball = DigitalTouchFireball {
        id: "f".to_string(),
        x: 0,
        y: 0,
        points: vec![Point { x: 0, y: 0, extra: 30 }],
        duration: 100,
    };
    let mut canvas = SVGCanvas::square(250);
    fireball.render_svg(&mut canvas, (10, 50), &[(20, 100)]);
    let text = canvas.render();
    assert!(text.contains("<radialGradient id=\"fireball-gradient\">\n<stop offset=\"0%\" stop-color=\"white\" />\n\n"));
    assert!(text.contains(
        "<circle cx=\"0\" cy=\"0\" r=\"50\" fill=\"url('#fireball-gradient')\">\n<animateMotion dur=\"1ms\" begin=\"1ms\" repeatCount=\"1\" path=\"M 10,200 L 10,200\" />\n\n<animateMotion dur=\"30ms\" begin=\"70ms\" repeatCount=\"1\" path=\"M 10,200 L 20,150\" />\n\n</circle>"
    ));
}

#[test]
fn heartbeat_render_svg() {
    let heartbeat = DigitalTouchHeartbeat::from_payload("h", 60, 2, 1500);
    let mut canvas = SVGCanvas::square(250);
    heartbeat.render_svg(&mut canvas, 125, 125);
    let text = canvas.render();
    assert!(text.contains("<g transform=\"translate(75,80)\">\n<metadata>\n<id>\nh\n</id>\n<bpm>\n60\n</bpm>\n<duration unit=\"second\">\n2\n</duration>\n<heartbreak unit=\"millisecond\">\n1500\n</heartbreak>\n</metadata>\n"));
    assert!(text.contains("dur=\"1000ms\" repeatCount=\"2\""));
    assert!(text.contains("begin=\"1501ms\""));
    assert!(text.contains("to=\"-15 50 60\""));
    assert!(text.contains("to=\"15 50 60\""));
}
