use ansi_machine::attr::{Attr, Color, NamedColor};
use ansi_machine::interpreter::{
    csi_ops, execute_op, osc_command, BufferOp, ColorRequest, DynamicColor, Handler, OscCommand, Performer,
};
use ansi_machine::message::WindowSize;
use ansi_machine::text::join_title_parts;
use ansi_machine::xcolor::{xparse_color, Rgb};

/// A small display buffer: one row that wraps onto the next, plus a log.
struct Recorder {
    cols: usize,
    row: usize,
    col: usize,
    grid: Vec<Vec<char>>,
    title: Option<String>,
    attrs: Vec<Attr>,
    log: Vec<String>,
    published: usize,
    size: Option<WindowSize>,
}

impl Recorder {
    fn new(cols: usize, rows: usize) -> Recorder {
        Recorder {
            cols,
            row: 0,
            col: 0,
            grid: vec![vec![' '; cols]; rows],
            title: None,
            attrs: Vec::new(),
            log: Vec::new(),
            published: 0,
            size: None,
        }
    }

    fn row_text(&self, r: usize) -> String {
        self.grid[r].iter().collect::<String>().trim_end().to_string()
    }
}

impl Handler for Recorder {
    // The call log is a model for the verifier; nothing runs it.
    fn ops(&self) -> vstd::seq::Seq<BufferOp> {
        unreachable!()
    }
    fn input(&mut self, c: char) {
        if self.col == self.cols {
            self.col = 0;
            self.row += 1;
        }
        self.grid[self.row][self.col] = c;
        self.col += 1;
    }
    fn put_tab(&mut self, count: u16) {
        self.log.push(format!("tab {count}"));
    }
    fn backspace(&mut self) {
        self.log.push("backspace".to_string());
    }
    fn carriage_return(&mut self) {
        self.col = 0;
        self.log.push("cr".to_string());
    }
    fn linefeed(&mut self) {
        self.log.push("lf".to_string());
    }
    fn bell(&mut self) {
        self.log.push("bell".to_string());
    }
    fn substitute(&mut self) {
        self.log.push("sub".to_string());
    }
    fn clear_line(&mut self, mode: u16) {
        self.log.push(format!("clear_line {mode}"));
    }
    fn clear_screen(&mut self, mode: u16) {
        self.log.push(format!("clear_screen {mode}"));
    }
    fn set_title(&mut self, title: Option<String>) {
        self.title = title;
    }
    fn terminal_attribute(&mut self, attr: Attr) {
        self.attrs.push(attr);
    }
    fn reset_color(&mut self, color: DynamicColor) {
        self.log.push(format!("reset_color {color:?}"));
    }
    fn set_dynamic_color(&mut self, color: DynamicColor, rgb: Rgb) {
        self.log.push(format!("set {color:?} {} {} {}", rgb.r, rgb.g, rgb.b));
    }
    fn report_dynamic_color(&mut self, color: DynamicColor, bell_terminated: bool) {
        self.log.push(format!("report {color:?} {bell_terminated}"));
    }
    fn resize(&mut self, size: WindowSize) {
        self.size = Some(size);
    }
    fn publish_visible_rows(&mut self) {
        self.published += 1;
    }
}

fn bytes(ps: &[&str]) -> Vec<Vec<u8>> {
    ps.iter().map(|p| p.as_bytes().to_vec()).collect()
}

#[test]
fn prints_advance_the_cursor_and_fill_the_row() {
    let mut p = Performer::new(Recorder::new(10, 3));
    p.print('x');
    p.execute(0x0d);
    let start = p.handler.col;
    for c in "hello".chars() {
        p.print(c);
    }
    assert_eq!(p.handler.col, start + 5);
    assert_eq!(p.handler.row_text(0), "hello");
    assert_eq!(p.handler.published, 6);
}

#[test]
fn prints_wrap_onto_the_next_row() {
    let mut p = Performer::new(Recorder::new(4, 3));
    for c in "abcdef".chars() {
        p.print(c);
    }
    assert_eq!(p.handler.row_text(0), "abcd");
    assert_eq!(p.handler.row_text(1), "ef");
    assert_eq!(p.handler.col, 6 % 4);
}

#[test]
fn execute_dispatch_table() {
    assert_eq!(execute_op(0x09), Some(BufferOp::PutTab(1)));
    assert_eq!(execute_op(0x08), Some(BufferOp::Backspace));
    assert_eq!(execute_op(0x0d), Some(BufferOp::CarriageReturn));
    assert_eq!(execute_op(0x0a), Some(BufferOp::Linefeed));
    assert_eq!(execute_op(0x0b), Some(BufferOp::Linefeed));
    assert_eq!(execute_op(0x0c), Some(BufferOp::Linefeed));
    assert_eq!(execute_op(0x07), Some(BufferOp::Bell));
    assert_eq!(execute_op(0x1a), Some(BufferOp::Substitute));
    assert_eq!(execute_op(0x0e), None);
    let mut p = Performer::new(Recorder::new(4, 1));
    p.execute(0x09);
    p.execute(0x07);
    p.execute(0x00);
    assert_eq!(p.handler.log, vec!["tab 1".to_string(), "bell".to_string()]);
    assert_eq!(p.handler.published, 0);
}

#[test]
fn sgr_without_parameters_applies_one_reset() {
    assert_eq!(csi_ops(&vec![], &[], false, 'm'), vec![BufferOp::TerminalAttribute(Attr::Reset)]);
    let mut p = Performer::new(Recorder::new(4, 1));
    p.csi_dispatch(&vec![], &[], false, 'm');
    assert_eq!(p.handler.attrs, vec![Attr::Reset]);
}

#[test]
fn sgr_with_intermediates_or_ignore_applies_nothing() {
    assert_eq!(csi_ops(&vec![], &[0x3f], false, 'm'), vec![]);
    assert_eq!(csi_ops(&vec![vec![1]], &[], true, 'm'), vec![]);
    assert_eq!(csi_ops(&vec![vec![1]], &[0x20, 0x21], false, 'm'), vec![]);
}

#[test]
fn sgr_applies_groups_in_order_and_skips_unknown() {
    let mut p = Performer::new(Recorder::new(4, 1));
    p.csi_dispatch(&vec![vec![1], vec![999], vec![31], vec![22]], &[], false, 'm');
    assert_eq!(
        p.handler.attrs,
        vec![
            Attr::Bold,
            Attr::Foreground(Color::Named(NamedColor::Red)),
            Attr::CancelBoldDim
        ]
    );
}

#[test]
fn erase_uses_default_substitution() {
    assert_eq!(csi_ops(&vec![], &[], false, 'K'), vec![BufferOp::ClearLine(0)]);
    assert_eq!(csi_ops(&vec![vec![0]], &[], false, 'K'), vec![BufferOp::ClearLine(0)]);
    assert_eq!(csi_ops(&vec![vec![2]], &[], false, 'K'), vec![BufferOp::ClearLine(2)]);
    assert_eq!(csi_ops(&vec![vec![3]], &[], false, 'J'), vec![BufferOp::ClearScreen(3)]);
    assert_eq!(csi_ops(&vec![vec![3]], &[], false, 'H'), vec![]);
}

#[test]
fn osc_sets_title() {
    let mut p = Performer::new(Recorder::new(4, 1));
    p.osc_dispatch(&bytes(&["0", "My Title"]), true);
    assert_eq!(p.handler.title, Some("My Title".to_string()));
}

#[test]
fn osc_title_without_text_is_unhandled() {
    assert_eq!(osc_command(&bytes(&["0"])), OscCommand::Unhandled);
    let mut p = Performer::new(Recorder::new(4, 1));
    p.osc_dispatch(&bytes(&["0"]), false);
    assert_eq!(p.handler.title, None);
}

#[test]
fn osc_title_joins_trims_and_skips_invalid_utf8() {
    let mut ps = bytes(&["2", "  left", "right  "]);
    ps.insert(2, vec![0xff, 0xfe]);
    assert_eq!(osc_command(&ps), OscCommand::SetTitle("left;right".to_string()));
    assert_eq!(
        join_title_parts(&vec!["a".to_string(), "".to_string(), "b".to_string()]),
        "a;;b".to_string()
    );
    assert_eq!(join_title_parts(&vec![]), "".to_string());
}

#[test]
fn osc_other_commands() {
    assert_eq!(osc_command(&vec![]), OscCommand::Ignored);
    assert_eq!(osc_command(&bytes(&[""])), OscCommand::Ignored);
    assert_eq!(osc_command(&bytes(&["4", "1", "red"])), OscCommand::SetColorIndex);
    assert_eq!(osc_command(&bytes(&["4", "1"])), OscCommand::Unhandled);
    assert_eq!(osc_command(&bytes(&["4"])), OscCommand::Unhandled);
    assert_eq!(osc_command(&bytes(&["10", "?"])), OscCommand::DynamicColors(vec![ColorRequest::Query(DynamicColor::Foreground)]));
    assert_eq!(osc_command(&bytes(&["110"])), OscCommand::ResetColor(DynamicColor::Foreground));
    assert_eq!(osc_command(&bytes(&["111"])), OscCommand::ResetColor(DynamicColor::Background));
    assert_eq!(osc_command(&bytes(&["112"])), OscCommand::ResetColor(DynamicColor::Cursor));
    assert_eq!(osc_command(&bytes(&["52", "c"])), OscCommand::Unhandled);
    let mut p = Performer::new(Recorder::new(4, 1));
    p.osc_dispatch(&bytes(&["112"]), true);
    assert_eq!(p.handler.log, vec!["reset_color Cursor".to_string()]);
}

#[test]
fn hook_starts_synchronized_update() {
    let mut p = Performer::new(Recorder::new(4, 1));
    p.hook(&vec![vec![2]], &[0x3d], false, 's');
    assert!(!p.synchronized_update);
    p.hook(&vec![vec![1]], &[0x3d], false, 's');
    assert!(p.synchronized_update);
    p.put(0x41);
    p.unhook();
    p.esc_dispatch(&[], false, 0x37);
    assert!(p.synchronized_update);
}

#[test]
fn resize_reaches_the_buffer() {
    let mut p = Performer::new(Recorder::new(4, 1));
    let size = WindowSize { num_lines: 24, num_cols: 80, cell_width: 8, cell_height: 16 };
    p.resize(size);
    assert_eq!(p.handler.size, Some(size));
}

#[test]
fn osc_title_trims_the_joined_text() {
    assert_eq!(osc_command(&bytes(&["0", " a", "b "])), OscCommand::SetTitle("a;b".to_string()));
    assert_eq!(osc_command(&bytes(&["0", "\u{3000}x\t"])), OscCommand::SetTitle("x".to_string()));
}

#[test]
fn osc_sets_dynamic_colors() {
    assert_eq!(
        osc_command(&bytes(&["10", "rgb:ff/00/00"])),
        OscCommand::DynamicColors(vec![ColorRequest::Assign(
            DynamicColor::Foreground,
            Rgb { r: 255, g: 0, b: 0 }
        )])
    );
    assert_eq!(
        osc_command(&bytes(&["11", "#00ff80"])),
        OscCommand::DynamicColors(vec![ColorRequest::Assign(
            DynamicColor::Background,
            Rgb { r: 0, g: 255, b: 128 }
        )])
    );
    assert_eq!(osc_command(&bytes(&["12", "?"])), OscCommand::DynamicColors(vec![ColorRequest::Query(DynamicColor::Cursor)]));
    assert_eq!(osc_command(&bytes(&["10", "blue"])), OscCommand::DynamicColors(vec![]));
    assert_eq!(osc_command(&bytes(&["11"])), OscCommand::Unhandled);
    let mut p = Performer::new(Recorder::new(4, 1));
    p.osc_dispatch(&bytes(&["12", "#fff"]), true);
    p.osc_dispatch(&bytes(&["10", "?"]), false);
    assert_eq!(
        p.handler.log,
        vec!["set Cursor 240 240 240".to_string(), "report Foreground false".to_string()]
    );
}

#[test]
fn xterm_color_specs() {
    assert_eq!(xparse_color(b"rgb:f/8/0"), Some(Rgb { r: 255, g: 136, b: 0 }));
    assert_eq!(xparse_color(b"rgb:ffff/0000/8000"), Some(Rgb { r: 255, g: 0, b: 127 }));
    assert_eq!(xparse_color(b"rgb:123/fff/000"), Some(Rgb { r: 18, g: 255, b: 0 }));
    assert_eq!(xparse_color(b"#1234567890ab"), Some(Rgb { r: 0x12, g: 0x56, b: 0x90 }));
    assert_eq!(xparse_color(b"#123456789"), Some(Rgb { r: 0x12, g: 0x45, b: 0x78 }));
    assert_eq!(xparse_color(b"rgb:ff/00"), None);
    assert_eq!(xparse_color(b"rgb:ff/00/00/00"), None);
    assert_eq!(xparse_color(b"rgb:fffff/0/0"), None);
    assert_eq!(xparse_color(b"rgb://0"), None);
    assert_eq!(xparse_color(b"#12345"), None);
    assert_eq!(xparse_color(b"#ggg"), None);
    assert_eq!(xparse_color(b""), None);
}

#[test]
fn osc_dynamic_colors_chain_and_stop_after_the_cursor() {
    assert_eq!(
        osc_command(&bytes(&["10", "#000", "bad", "?", "#fff"])),
        OscCommand::DynamicColors(vec![
            ColorRequest::Assign(DynamicColor::Foreground, Rgb { r: 0, g: 0, b: 0 }),
            ColorRequest::Query(DynamicColor::Cursor),
        ])
    );
    assert_eq!(
        osc_command(&bytes(&["11", "?", "?", "?"])),
        OscCommand::DynamicColors(vec![
            ColorRequest::Query(DynamicColor::Background),
            ColorRequest::Query(DynamicColor::Cursor),
        ])
    );
    let mut p = Performer::new(Recorder::new(4, 1));
    p.osc_dispatch(&bytes(&["11", "rgb:0/0/0", "?"]), true);
    assert_eq!(
        p.handler.log,
        vec!["set Background 0 0 0".to_string(), "report Cursor true".to_string()]
    );
}
