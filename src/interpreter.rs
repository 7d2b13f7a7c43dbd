use vstd::prelude::*;
use crate::attr::{Attr, attrs_from_sgr_parameters, sgr_attrs};
use crate::control::{BEL, BS, CR, FF, HT, LF, SUB, VT};
use crate::message::WindowSize;
use crate::xcolor::{xparse_color, xparse_color_spec, Rgb};
use crate::text::{decode_valid_texts, join_semicolon, join_title_parts, trim_text, trimmed, valid_texts};

verus! {

/// A color whose value programs may override and reset by OSC.
#[derive(Clone, Copy, Debug, PartialEq, Eq, Structural)]
pub enum DynamicColor {
    Foreground,
    Background,
    Cursor,
}

/// The display buffer that the interpreter drives. Its model is the log of
/// the calls made on it; each call appends itself.
pub trait Handler {
    /// Every call made on the buffer so far, in order.
    spec fn ops(&self) -> Seq<BufferOp>;

    /// A character to be displayed.
    fn input(&mut self, c: char)
        ensures
            final(self).ops() == old(self).ops().push(BufferOp::Input(c)),
    ;

    fn put_tab(&mut self, count: u16)
        ensures
            final(self).ops() == old(self).ops().push(BufferOp::PutTab(count)),
    ;

    fn backspace(&mut self)
        ensures
            final(self).ops() == old(self).ops().push(BufferOp::Backspace),
    ;

    fn carriage_return(&mut self)
        ensures
            final(self).ops() == old(self).ops().push(BufferOp::CarriageReturn),
    ;

    fn linefeed(&mut self)
        ensures
            final(self).ops() == old(self).ops().push(BufferOp::Linefeed),
    ;

    fn bell(&mut self)
        ensures
            final(self).ops() == old(self).ops().push(BufferOp::Bell),
    ;

    fn substitute(&mut self)
        ensures
            final(self).ops() == old(self).ops().push(BufferOp::Substitute),
    ;

    fn clear_line(&mut self, mode: u16)
        ensures
            final(self).ops() == old(self).ops().push(BufferOp::ClearLine(mode)),
    ;

    fn clear_screen(&mut self, mode: u16)
        ensures
            final(self).ops() == old(self).ops().push(BufferOp::ClearScreen(mode)),
    ;

    fn set_title(&mut self, title: Option<String>)
        ensures
            final(self).ops() == old(self).ops().push(BufferOp::SetTitle(title)),
    ;

    fn terminal_attribute(&mut self, attr: Attr)
        ensures
            final(self).ops() == old(self).ops().push(BufferOp::TerminalAttribute(attr)),
    ;

    fn reset_color(&mut self, color: DynamicColor)
        ensures
            final(self).ops() == old(self).ops().push(BufferOp::ResetColor(color)),
    ;

    fn set_dynamic_color(&mut self, color: DynamicColor, rgb: Rgb)
        ensures
            final(self).ops() == old(self).ops().push(BufferOp::SetDynamicColor(color, rgb)),
    ;

    /// Reports the color's value to the program, ending the reply with BEL
    /// or with ST as the query was ended.
    fn report_dynamic_color(&mut self, color: DynamicColor, bell_terminated: bool)
        ensures
            final(self).ops() == old(self).ops().push(BufferOp::ReportDynamicColor(color, bell_terminated)),
    ;

    fn resize(&mut self, size: WindowSize)
        ensures
            final(self).ops() == old(self).ops().push(BufferOp::Resize(size)),
    ;

    /// Replaces the shared snapshot of the visible rows with the current ones,
    /// as one whole value.
    fn publish_visible_rows(&mut self)
        ensures
            final(self).ops() == old(self).ops().push(BufferOp::PublishVisibleRows),
    ;
}

/// One mutation of the display buffer.
#[derive(Clone, Debug, PartialEq, Eq)]
pub enum BufferOp {
    Input(char),
    PutTab(u16),
    Backspace,
    CarriageReturn,
    Linefeed,
    Bell,
    Substitute,
    ClearLine(u16),
    ClearScreen(u16),
    SetTitle(Option<String>),
    TerminalAttribute(Attr),
    ResetColor(DynamicColor),
    SetDynamicColor(DynamicColor, Rgb),
    ReportDynamicColor(DynamicColor, bool),
    Resize(WindowSize),
    PublishVisibleRows,
}

/// A request on one dynamic color.
#[derive(Clone, Copy, Debug, PartialEq, Eq, Structural)]
pub enum ColorRequest {
    Assign(DynamicColor, Rgb),
    /// `?` in place of a color specification: report the color.
    Query(DynamicColor),
}

/// What an Operating System Command asks for.
#[derive(Clone, Debug, PartialEq, Eq)]
pub enum OscCommand {
    /// No parameters, or an empty first one.
    Ignored,
    SetTitle(String),
    /// A well-formed palette assignment; no entry is changed.
    SetColorIndex,
    ResetColor(DynamicColor),
    /// What `10`, `11` and `12` ask of the dynamic colors, in order.
    DynamicColors(Vec<ColorRequest>),
    /// Logged and dropped.
    Unhandled,
}

/// The buffer mutation for a C0 control byte.
pub open spec fn execute_effect(byte: u8) -> Option<BufferOp> {
    if byte == HT {
        Some(BufferOp::PutTab(1))
    } else if byte == BS {
        Some(BufferOp::Backspace)
    } else if byte == CR {
        Some(BufferOp::CarriageReturn)
    } else if byte == LF || byte == VT || byte == FF {
        Some(BufferOp::Linefeed)
    } else if byte == BEL {
        Some(BufferOp::Bell)
    } else if byte == SUB {
        Some(BufferOp::Substitute)
    } else {
        None
    }
}

pub open spec fn option_seq<T>(o: Option<T>) -> Seq<T> {
    match o {
        Some(x) => seq![x],
        None => seq![],
    }
}

/// First code of the first group, with 0 and absence both meaning the default.
pub open spec fn first_param_or(params: Seq<Seq<u16>>, default: u16) -> u16 {
    if params.len() > 0 && params[0].len() > 0 && params[0][0] != 0 {
        params[0][0]
    } else {
        default
    }
}

/// The attribute applications for decoded SGR groups; unknown groups apply
/// nothing.
pub open spec fn attr_effects(attrs: Seq<Option<Attr>>) -> Seq<BufferOp>
    decreases attrs.len(),
{
    if attrs.len() == 0 {
        seq![]
    } else {
        attr_effects(attrs.drop_last()) + match attrs.last() {
            Some(a) => seq![BufferOp::TerminalAttribute(a)],
            None => seq![],
        }
    }
}

/// The buffer mutations for a control sequence.
pub open spec fn csi_effects(
    params: Seq<Seq<u16>>,
    intermediates: Seq<u8>,
    ignore: bool,
    action: char,
) -> Seq<BufferOp> {
    if ignore || intermediates.len() != 0 {
        seq![]
    } else if action == 'K' {
        seq![BufferOp::ClearLine(first_param_or(params, 0))]
    } else if action == 'J' {
        seq![BufferOp::ClearScreen(first_param_or(params, 0))]
    } else if action == 'm' {
        if params.len() == 0 {
            seq![BufferOp::TerminalAttribute(Attr::Reset)]
        } else {
            attr_effects(sgr_attrs(params))
        }
    } else {
        seq![]
    }
}

/// Whether a device control string begins a synchronized update.
pub open spec fn starts_sync_spec(params: Seq<Seq<u16>>, intermediates: Seq<u8>, action: char) -> bool {
    action == 's' && intermediates == seq![0x3du8] && params.len() > 0 && params[0].len() > 0
        && params[0][0] == 1
}

pub open spec fn group_views(params: Seq<Vec<u16>>) -> Seq<Seq<u16>> {
    params.map_values(|g: Vec<u16>| g@)
}

pub open spec fn byte_views(params: Seq<Vec<u8>>) -> Seq<Seq<u8>> {
    params.map_values(|p: Vec<u8>| p@)
}

/// The window title that `0;...` and `2;...` set: the valid UTF-8 parameters
/// after the first, joined with `;` and trimmed.
pub open spec fn osc_title(ps: Seq<Seq<u8>>) -> Seq<char> {
    trimmed(join_semicolon(valid_texts(ps.skip(1))))
}

/// The dynamic color that `110`, `111` and `112` reset.
pub open spec fn osc_reset_target(p: Seq<u8>) -> Option<DynamicColor> {
    if p == seq![0x31u8, 0x31u8, 0x30u8] {
        Some(DynamicColor::Foreground)
    } else if p == seq![0x31u8, 0x31u8, 0x31u8] {
        Some(DynamicColor::Background)
    } else if p == seq![0x31u8, 0x31u8, 0x32u8] {
        Some(DynamicColor::Cursor)
    } else {
        None
    }
}

/// The dynamic color that `10`, `11` and `12` set or query.
pub open spec fn osc_dynamic_target(p: Seq<u8>) -> Option<DynamicColor> {
    if p == seq![0x31u8, 0x30u8] {
        Some(DynamicColor::Foreground)
    } else if p == seq![0x31u8, 0x31u8] {
        Some(DynamicColor::Background)
    } else if p == seq![0x31u8, 0x32u8] {
        Some(DynamicColor::Cursor)
    } else {
        None
    }
}

/// Position of a dynamic color in the order foreground, background, cursor.
pub open spec fn dynamic_index(c: DynamicColor) -> nat {
    match c {
        DynamicColor::Foreground => 0,
        DynamicColor::Background => 1,
        DynamicColor::Cursor => 2,
    }
}

pub open spec fn dynamic_at(i: nat) -> DynamicColor {
    if i == 0 {
        DynamicColor::Foreground
    } else if i == 1 {
        DynamicColor::Background
    } else {
        DynamicColor::Cursor
    }
}

/// The request that one color specification makes of color `c`; none for a
/// specification that does not parse.
pub open spec fn color_request(spec: Seq<u8>, c: DynamicColor) -> Seq<ColorRequest> {
    if spec == seq![0x3fu8] {
        seq![ColorRequest::Query(c)]
    } else if xparse_color_spec(spec) is Some {
        seq![ColorRequest::Assign(c, xparse_color_spec(spec)->0)]
    } else {
        seq![]
    }
}

/// The requests that `specs` make of the dynamic colors from position `i` on:
/// each specification goes to the next color, and those past the cursor
/// color are dropped.
pub open spec fn color_requests(specs: Seq<Seq<u8>>, i: nat) -> Seq<ColorRequest>
    decreases specs.len(),
{
    if specs.len() == 0 || i > 2 {
        seq![]
    } else {
        color_request(specs[0], dynamic_at(i)) + color_requests(specs.skip(1), i + 1)
    }
}

/// The buffer call that carries out a request.
pub open spec fn request_effect(r: ColorRequest, bell_terminated: bool) -> BufferOp {
    match r {
        ColorRequest::Assign(c, rgb) => BufferOp::SetDynamicColor(c, rgb),
        ColorRequest::Query(c) => BufferOp::ReportDynamicColor(c, bell_terminated),
    }
}

pub open spec fn request_effects(rs: Seq<ColorRequest>, bell_terminated: bool) -> Seq<BufferOp>
    decreases rs.len(),
{
    if rs.len() == 0 {
        seq![]
    } else {
        request_effects(rs.drop_last(), bell_terminated).push(
            request_effect(rs.last(), bell_terminated),
        )
    }
}

/// Whether `r` is the command for the OSC parameters `ps`.
pub open spec fn osc_meaning(ps: Seq<Seq<u8>>, r: OscCommand) -> bool {
    if ps.len() == 0 || ps[0].len() == 0 {
        r is Ignored
    } else if ps[0] == seq![0x30u8] || ps[0] == seq![0x32u8] {
        if ps.len() >= 2 {
            r matches OscCommand::SetTitle(t) && t@ == osc_title(ps)
        } else {
            r is Unhandled
        }
    } else if ps[0] == seq![0x34u8] {
        if ps.len() > 1 && ps.len() % 2 == 1 {
            r is SetColorIndex
        } else {
            r is Unhandled
        }
    } else if osc_reset_target(ps[0]) is Some {
        r == OscCommand::ResetColor(osc_reset_target(ps[0])->0)
    } else if osc_dynamic_target(ps[0]) is Some {
        if ps.len() >= 2 {
            r matches OscCommand::DynamicColors(v) && v@ == color_requests(
                ps.skip(1),
                dynamic_index(osc_dynamic_target(ps[0])->0),
            )
        } else {
            r is Unhandled
        }
    } else {
        r is Unhandled
    }
}

/// The buffer mutation for a C0 control byte; `None` for bytes that are
/// logged and dropped.
pub fn execute_op(byte: u8) -> (r: Option<BufferOp>)
    ensures
        r == execute_effect(byte),
{
    if byte == HT {
        Some(BufferOp::PutTab(1))
    } else if byte == BS {
        Some(BufferOp::Backspace)
    } else if byte == CR {
        Some(BufferOp::CarriageReturn)
    } else if byte == LF || byte == VT || byte == FF {
        Some(BufferOp::Linefeed)
    } else if byte == BEL {
        Some(BufferOp::Bell)
    } else if byte == SUB {
        Some(BufferOp::Substitute)
    } else {
        None
    }
}

fn first_param(params: &Vec<Vec<u16>>, default: u16) -> (r: u16)
    ensures
        r == first_param_or(group_views(params@), default),
{
    if params.len() > 0 && params[0].len() > 0 && params[0][0] != 0 {
        params[0][0]
    } else {
        default
    }
}

/// The buffer mutations that a control sequence asks for, in order.
pub fn csi_ops(
    params: &Vec<Vec<u16>>,
    intermediates: &[u8],
    ignore: bool,
    action: char,
) -> (r: Vec<BufferOp>)
    ensures
        r@ == csi_effects(group_views(params@), intermediates@, ignore, action),
{
    let mut ops: Vec<BufferOp> = Vec::new();
    if ignore || intermediates.len() != 0 {
        return ops;
    }
    if action == 'K' {
        ops.push(BufferOp::ClearLine(first_param(params, 0)));
    } else if action == 'J' {
        ops.push(BufferOp::ClearScreen(first_param(params, 0)));
    } else if action == 'm' {
        if params.len() == 0 {
            ops.push(BufferOp::TerminalAttribute(Attr::Reset));
        } else {
            let attrs = attrs_from_sgr_parameters(params);
            let mut i: usize = 0;
            while i < attrs.len()
                invariant
                    i <= attrs.len(),
                    ops@ == attr_effects(attrs@.take(i as int)),
                decreases attrs.len() - i,
            {
                proof {
                    assert(attrs@.take(i as int + 1).drop_last() == attrs@.take(i as int));
                }
                match attrs[i] {
                    Some(a) => ops.push(BufferOp::TerminalAttribute(a)),
                    None => {},
                }
                i = i + 1;
            }
            proof {
                assert(attrs@.take(attrs.len() as int) == attrs@);
            }
        }
    }
    ops
}

/// Whether a device control string begins a synchronized update
/// (`DCS = 1 s`).
pub fn starts_synchronized_update(
    params: &Vec<Vec<u16>>,
    intermediates: &[u8],
    action: char,
) -> (r: bool)
    ensures
        r == starts_sync_spec(group_views(params@), intermediates@, action),
{
    let r = action == 's' && intermediates.len() == 1 && intermediates[0] == 0x3du8 && params.len() > 0
        && params[0].len() > 0 && params[0][0] == 1;
    proof {
        if intermediates.len() == 1 && intermediates[0] == 0x3du8 {
            assert(intermediates@ =~= seq![0x3du8]);
        }
    }
    r
}

fn is_bytes1(p: &Vec<u8>, a: u8) -> (r: bool)
    ensures
        r == (p@ == seq![a]),
{
    let r = p.len() == 1 && p[0] == a;
    proof {
        if p.len() == 1 && p[0] == a {
            assert(p@ =~= seq![a]);
        }
    }
    r
}

fn reset_target(p: &Vec<u8>) -> (r: Option<DynamicColor>)
    ensures
        r == osc_reset_target(p@),
{
    if p.len() == 3 && p[0] == 0x31u8 && p[1] == 0x31u8 {
        proof {
            assert(p@ =~= seq![0x31u8, 0x31u8, p@[2]]);
        }
        if p[2] == 0x30u8 {
            return Some(DynamicColor::Foreground);
        } else if p[2] == 0x31u8 {
            return Some(DynamicColor::Background);
        } else if p[2] == 0x32u8 {
            return Some(DynamicColor::Cursor);
        }
    }
    None
}

fn dynamic_target(p: &Vec<u8>) -> (r: Option<DynamicColor>)
    ensures
        r == osc_dynamic_target(p@),
{
    if p.len() == 2 && p[0] == 0x31u8 {
        proof {
            assert(p@ =~= seq![0x31u8, p@[1]]);
        }
        if p[1] == 0x30u8 {
            return Some(DynamicColor::Foreground);
        } else if p[1] == 0x31u8 {
            return Some(DynamicColor::Background);
        } else if p[1] == 0x32u8 {
            return Some(DynamicColor::Cursor);
        }
    }
    None
}

fn color_at(i: usize) -> (r: DynamicColor)
    ensures
        r == dynamic_at(i as nat),
{
    if i == 0 {
        DynamicColor::Foreground
    } else if i == 1 {
        DynamicColor::Background
    } else {
        DynamicColor::Cursor
    }
}

fn index_of(c: DynamicColor) -> (r: usize)
    ensures
        r == dynamic_index(c),
{
    match c {
        DynamicColor::Foreground => 0,
        DynamicColor::Background => 1,
        DynamicColor::Cursor => 2,
    }
}

fn color_request_of(p: &Vec<u8>, c: DynamicColor) -> (r: Option<ColorRequest>)
    ensures
        option_seq(r) == color_request(p@, c),
{
    if is_bytes1(p, 0x3fu8) {
        return Some(ColorRequest::Query(c));
    }
    match xparse_color(p.as_slice()) {
        Some(rgb) => Some(ColorRequest::Assign(c, rgb)),
        None => None,
    }
}

/// The requests of `params[1..]` on the dynamic colors from `c` on.
fn dynamic_requests(params: &Vec<Vec<u8>>, c: DynamicColor) -> (r: Vec<ColorRequest>)
    requires
        params@.len() >= 2,
    ensures
        r@ == color_requests(byte_views(params@).skip(1), dynamic_index(c)),
{
    let ghost ps = byte_views(params@);
    let ghost whole = color_requests(ps.skip(1), dynamic_index(c));
    let mut out: Vec<ColorRequest> = Vec::new();
    let mut k: usize = 1;
    let mut i: usize = index_of(c);
    proof {
        assert(out@ + color_requests(ps.skip(1), i as nat) =~= whole);
    }
    while k < params.len() && i <= 2
        invariant
            1 <= k <= params@.len(),
            i <= 3,
            ps == byte_views(params@),
            whole == color_requests(ps.skip(1), dynamic_index(c)),
            out@ + color_requests(ps.skip(k as int), i as nat) == whole,
        decreases params.len() - k,
    {
        let ghost rest = ps.skip(k as int);
        let ghost prev = out@;
        let req = color_request_of(&params[k], color_at(i));
        proof {
            assert(rest[0] == params@[k as int]@);
            assert(rest.skip(1) =~= ps.skip(k as int + 1));
        }
        match req {
            Some(q) => out.push(q),
            None => {},
        }
        proof {
            assert(out@ =~= prev + option_seq(req));
            assert(out@ + color_requests(ps.skip(k as int + 1), (i + 1) as nat) =~= prev + (
            color_request(rest[0], dynamic_at(i as nat)) + color_requests(rest.skip(1), (i + 1) as nat)));
        }
        k = k + 1;
        i = i + 1;
    }
    proof {
        assert(color_requests(ps.skip(k as int), i as nat) == Seq::<ColorRequest>::empty());
        assert(out@ + Seq::<ColorRequest>::empty() =~= out@);
    }
    out
}

/// Classifies an Operating System Command by its first parameter.
pub fn osc_command(params: &Vec<Vec<u8>>) -> (r: OscCommand)
    ensures
        osc_meaning(byte_views(params@), r),
{
    if params.len() == 0 || params[0].len() == 0 {
        return OscCommand::Ignored;
    }
    if is_bytes1(&params[0], 0x30u8) || is_bytes1(&params[0], 0x32u8) {
        if params.len() >= 2 {
            let parts = decode_valid_texts(params, 1);
            let joined = join_title_parts(&parts);
            let title = trim_text(joined.as_str());
            return OscCommand::SetTitle(title);
        }
        return OscCommand::Unhandled;
    }
    if is_bytes1(&params[0], 0x34u8) {
        if params.len() > 1 && params.len() % 2 == 1 {
            return OscCommand::SetColorIndex;
        }
        return OscCommand::Unhandled;
    }
    match reset_target(&params[0]) {
        Some(c) => {
            return OscCommand::ResetColor(c);
        },
        None => {},
    }
    match dynamic_target(&params[0]) {
        Some(c) => {
            if params.len() < 2 {
                return OscCommand::Unhandled;
            }
            OscCommand::DynamicColors(dynamic_requests(params, c))
        },
        None => OscCommand::Unhandled,
    }
}

/// Whether the OSC parameters set the window title.
pub open spec fn osc_sets_title(ps: Seq<Seq<u8>>) -> bool {
    ps.len() >= 2 && (ps[0] == seq![0x30u8] || ps[0] == seq![0x32u8])
}

/// The calls that printing one character makes: the character, then the
/// publication of the visible rows.
pub open spec fn printed(c: char) -> Seq<BufferOp> {
    seq![BufferOp::Input(c), BufferOp::PublishVisibleRows]
}

/// The log of buffer mutations after printing `cs`, one character at a time,
/// onto `log`.
pub open spec fn after_prints(log: Seq<BufferOp>, cs: Seq<char>) -> Seq<BufferOp>
    decreases cs.len(),
{
    if cs.len() == 0 {
        log
    } else {
        after_prints(log, cs.drop_last()) + printed(cs.last())
    }
}

/// The calls that printing `cs` makes, one character at a time.
pub open spec fn input_ops(cs: Seq<char>) -> Seq<BufferOp>
    decreases cs.len(),
{
    if cs.len() == 0 {
        seq![]
    } else {
        printed(cs[0]) + input_ops(cs.skip(1))
    }
}

proof fn lemma_input_ops_push(cs: Seq<char>, c: char)
    ensures
        input_ops(cs.push(c)) == input_ops(cs) + printed(c),
    decreases cs.len(),
{
    if cs.len() == 0 {
        assert(cs.push(c).skip(1) =~= Seq::<char>::empty());
        assert(input_ops(Seq::<char>::empty()) == Seq::<BufferOp>::empty());
        assert(cs.push(c)[0] == c);
        assert(input_ops(cs.push(c)) =~= input_ops(cs) + printed(c));
    } else {
        lemma_input_ops_push(cs.skip(1), c);
        assert(cs.push(c).skip(1) =~= cs.skip(1).push(c));
        assert(cs.push(c)[0] == cs[0]);
        assert(input_ops(cs.push(c)) =~= input_ops(cs) + printed(c));
    }
}

/// A run of printed characters reaches the display buffer as one `Input` per
/// character, in the order printed, each followed by a publication of the
/// visible rows, and nothing else; where the cursor then stands is the
/// buffer's own arithmetic.
pub proof fn lemma_print_run(log: Seq<BufferOp>, cs: Seq<char>)
    ensures
        after_prints(log, cs) == log + input_ops(cs),
    decreases cs.len(),
{
    if cs.len() == 0 {
        assert(log + input_ops(cs) =~= log);
    } else {
        let init = cs.drop_last();
        let c = cs.last();
        lemma_print_run(log, init);
        lemma_input_ops_push(init, c);
        assert(init.push(c) =~= cs);
        assert(log + input_ops(cs) =~= log + input_ops(init) + printed(c));
    }
}

/// A select-graphic-rendition sequence without parameters and without
/// intermediates resets the pen exactly once; with intermediates it is not a
/// recognised form and applies nothing.
pub proof fn lemma_sgr_without_params_resets(intermediates: Seq<u8>)
    ensures
        intermediates.len() == 0 ==> csi_effects(seq![], intermediates, false, 'm') == seq![
            BufferOp::TerminalAttribute(Attr::Reset),
        ],
        intermediates.len() != 0 ==> csi_effects(seq![], intermediates, false, 'm') == Seq::<
            BufferOp,
        >::empty(),
{
}

/// The calls that an OSC makes on the buffer, other than setting the title.
pub open spec fn osc_color_effects(ps: Seq<Seq<u8>>, bell_terminated: bool) -> Seq<BufferOp> {
    if ps.len() > 0 && osc_reset_target(ps[0]) is Some {
        seq![BufferOp::ResetColor(osc_reset_target(ps[0])->0)]
    } else if ps.len() >= 2 && osc_dynamic_target(ps[0]) is Some {
        request_effects(
            color_requests(ps.skip(1), dynamic_index(osc_dynamic_target(ps[0])->0)),
            bell_terminated,
        )
    } else {
        seq![]
    }
}

/// The escape-sequence interpreter: turns tokenizer callbacks into calls on
/// the display buffer `handler`.
pub struct Performer<H: Handler> {
    pub handler: H,
    /// Set by `DCS = 1 s`, the start of a synchronized update.
    pub synchronized_update: bool,
}

impl<H: Handler> Performer<H> {
    pub fn new(handler: H) -> (r: Self)
        ensures
            r.handler == handler,
            !r.synchronized_update,
    {
        Performer { handler, synchronized_update: false }
    }

    fn apply(&mut self, op: BufferOp)
        ensures
            final(self).handler.ops() == old(self).handler.ops().push(op),
            final(self).synchronized_update == old(self).synchronized_update,
    {
        match op {
            BufferOp::Input(c) => self.handler.input(c),
            BufferOp::PutTab(n) => self.handler.put_tab(n),
            BufferOp::Backspace => self.handler.backspace(),
            BufferOp::CarriageReturn => self.handler.carriage_return(),
            BufferOp::Linefeed => self.handler.linefeed(),
            BufferOp::Bell => self.handler.bell(),
            BufferOp::Substitute => self.handler.substitute(),
            BufferOp::ClearLine(m) => self.handler.clear_line(m),
            BufferOp::ClearScreen(m) => self.handler.clear_screen(m),
            BufferOp::SetTitle(t) => self.handler.set_title(t),
            BufferOp::TerminalAttribute(a) => self.handler.terminal_attribute(a),
            BufferOp::ResetColor(c) => self.handler.reset_color(c),
            BufferOp::SetDynamicColor(c, rgb) => self.handler.set_dynamic_color(c, rgb),
            BufferOp::ReportDynamicColor(c, bell) => self.handler.report_dynamic_color(c, bell),
            BufferOp::Resize(w) => self.handler.resize(w),
            BufferOp::PublishVisibleRows => self.handler.publish_visible_rows(),
        }
    }

    fn apply_requests(&mut self, reqs: &Vec<ColorRequest>, bell_terminated: bool)
        ensures
            final(self).handler.ops() == old(self).handler.ops() + request_effects(
                reqs@,
                bell_terminated,
            ),
            final(self).synchronized_update == old(self).synchronized_update,
    {
        let ghost start = self.handler.ops();
        let mut i: usize = 0;
        while i < reqs.len()
            invariant
                i <= reqs@.len(),
                self.handler.ops() == start + request_effects(reqs@.take(i as int), bell_terminated),
                self.synchronized_update == old(self).synchronized_update,
            decreases reqs.len() - i,
        {
            proof {
                assert(reqs@.take(i as int + 1).drop_last() =~= reqs@.take(i as int));
            }
            match reqs[i] {
                ColorRequest::Assign(c, rgb) => self.apply(BufferOp::SetDynamicColor(c, rgb)),
                ColorRequest::Query(c) => self.apply(BufferOp::ReportDynamicColor(c, bell_terminated)),
            }
            i = i + 1;
        }
        proof {
            assert(reqs@.take(reqs.len() as int) =~= reqs@);
        }
    }

    /// Displays a character, then publishes the visible rows.
    pub fn print(&mut self, c: char)
        ensures
            final(self).handler.ops() == old(self).handler.ops() + printed(c),
            final(self).synchronized_update == old(self).synchronized_update,
    {
        let ghost before = self.handler.ops();
        self.handler.input(c);
        self.handler.publish_visible_rows();
        assert(self.handler.ops() =~= before + printed(c));
    }

    /// Runs a C0 control function; unmapped bytes are dropped. The visible
    /// rows are not published.
    pub fn execute(&mut self, byte: u8)
        ensures
            final(self).handler.ops() == old(self).handler.ops() + option_seq(execute_effect(byte)),
            final(self).synchronized_update == old(self).synchronized_update,
    {
        let ghost before = self.handler.ops();
        match execute_op(byte) {
            Some(op) => {
                self.apply(op);
                assert(before + option_seq(execute_effect(byte)) =~= before.push(op));
            },
            None => {
                assert(before + option_seq(execute_effect(byte)) =~= before);
            },
        }
    }

    /// Enters a device control string.
    pub fn hook(&mut self, params: &Vec<Vec<u16>>, intermediates: &[u8], ignore: bool, action: char)
        ensures
            final(self).handler == old(self).handler,
            final(self).synchronized_update == (old(self).synchronized_update || starts_sync_spec(
                group_views(params@),
                intermediates@,
                action,
            )),
    {
        if starts_synchronized_update(params, intermediates, action) {
            self.synchronized_update = true;
        }
    }

    /// A byte of a device control string's payload; not captured.
    pub fn put(&mut self, byte: u8)
        ensures
            *final(self) == *old(self),
    {
    }

    /// Leaves a device control string.
    pub fn unhook(&mut self)
        ensures
            *final(self) == *old(self),
    {
    }

    /// Runs an Operating System Command.
    pub fn osc_dispatch(&mut self, params: &Vec<Vec<u8>>, bell_terminated: bool)
        ensures
            final(self).synchronized_update == old(self).synchronized_update,
            osc_sets_title(byte_views(params@)) ==> {
                &&& final(self).handler.ops().len() == old(self).handler.ops().len() + 1
                &&& final(self).handler.ops().drop_last() == old(self).handler.ops()
                &&& final(self).handler.ops().last() matches BufferOp::SetTitle(Some(t))
                &&& t@ == osc_title(byte_views(params@))
            },
            !osc_sets_title(byte_views(params@)) ==> final(self).handler.ops() == old(
                self,
            ).handler.ops() + osc_color_effects(byte_views(params@), bell_terminated),
    {
        let ghost before = self.handler.ops();
        let ghost ps = byte_views(params@);
        let cmd = osc_command(params);
        proof {
            if params@.len() > 0 {
                assert(ps[0] == params@[0]@);
            }
            if params@.len() > 1 {
                assert(ps[1] == params@[1]@);
            }
        }
        match cmd {
            OscCommand::SetTitle(t) => {
                let ghost tv = t@;
                proof {
                    assert(osc_sets_title(ps));
                    assert(tv == osc_title(ps));
                }
                self.apply(BufferOp::SetTitle(Some(t)));
                proof {
                    assert(self.handler.ops().drop_last() =~= before);
                }
            },
            OscCommand::ResetColor(c) => {
                self.apply(BufferOp::ResetColor(c));
                assert(self.handler.ops() =~= before + osc_color_effects(ps, bell_terminated));
            },
            OscCommand::DynamicColors(reqs) => {
                self.apply_requests(&reqs, bell_terminated);
            },
            _ => {
                assert(osc_color_effects(ps, bell_terminated) =~= Seq::<BufferOp>::empty());
                assert(self.handler.ops() =~= before + osc_color_effects(ps, bell_terminated));
            },
        }
    }

    /// Runs a control sequence; forms not recognised make no call.
    pub fn csi_dispatch(
        &mut self,
        params: &Vec<Vec<u16>>,
        intermediates: &[u8],
        ignore: bool,
        action: char,
    )
        ensures
            final(self).handler.ops() == old(self).handler.ops() + csi_effects(
                group_views(params@),
                intermediates@,
                ignore,
                action,
            ),
            final(self).synchronized_update == old(self).synchronized_update,
    {
        let ops = csi_ops(params, intermediates, ignore, action);
        let ghost start = self.handler.ops();
        let mut i: usize = 0;
        let n = ops.len();
        let mut rest = ops;
        while i < n
            invariant
                n == ops@.len(),
                i <= n,
                rest@ == ops@.skip(i as int),
                self.handler.ops() == start + ops@.take(i as int),
                self.synchronized_update == old(self).synchronized_update,
            decreases n - i,
        {
            let op = rest.remove(0);
            proof {
                assert(op == ops@[i as int]);
                assert(rest@ =~= ops@.skip(i as int + 1));
                assert(ops@.take(i as int + 1) == ops@.take(i as int).push(op));
            }
            self.apply(op);
            i = i + 1;
        }
        proof {
            assert(ops@.take(n as int) == ops@);
        }
    }

    /// An escape sequence; none changes the buffer.
    pub fn esc_dispatch(&mut self, intermediates: &[u8], ignore: bool, byte: u8)
        ensures
            *final(self) == *old(self),
    {
    }

    /// Applies new geometry to the display buffer.
    pub fn resize(&mut self, size: WindowSize)
        ensures
            final(self).handler.ops() == old(self).handler.ops().push(BufferOp::Resize(size)),
            final(self).synchronized_update == old(self).synchronized_update,
    {
        self.handler.resize(size);
    }
}

} // verus!
