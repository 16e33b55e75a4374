//! A width-aware box-layout printer.
//!
//! Rendering code describes its output as a stream of tokens: words, breaks
//! and boxes. A box whose content fits on the rest of the line is printed
//! flat. A consistent box that does not fit turns every break directly inside
//! it into a newline; an inconsistent one breaks only where the words up to the
//! next break would not fit. A visual box indents its continuation lines to the
//! column where it opened.
use vstd::prelude::*;
use vstd::string::*;

verus! {

/// Indentation step of nested boxes.
pub const INDENT: isize = 2;

/// Target width of a line.
pub const WIDTH: usize = 78;

/// Columns beyond this are counted as this.
pub const MAX_COLUMN: usize = 1000000;

/// The size counted for a hard break: no box that holds one fits.
pub const HARD_SIZE: usize = 65535;

/// What a token stands for, with words as character sequences.
pub enum Tok {
    /// A word, printed as it is.
    Text(Seq<char>),
    /// `blank` spaces if the line is not broken here, else a newline indented by
    /// `offset` relative to the enclosing box.
    Break { blank: usize, offset: isize },
    /// Always a newline.
    Hard,
    /// Opens a box whose breaks are indented by `indent`.
    Begin { consistent: bool, indent: isize },
    /// Opens a consistent box whose breaks are indented to its first column.
    Visual,
    /// Closes the innermost box.
    End,
}

/// A token of the printer's stream.
pub enum Token {
    Text(String),
    Break { blank: usize, offset: isize },
    Hard,
    Begin { consistent: bool, indent: isize },
    Visual,
    End,
}

impl View for Token {
    type V = Tok;

    open spec fn view(&self) -> Tok {
        match self {
            Token::Text(s) => Tok::Text(s@),
            Token::Break { blank, offset } => Tok::Break { blank: *blank, offset: *offset },
            Token::Hard => Tok::Hard,
            Token::Begin { consistent, indent } => Tok::Begin {
                consistent: *consistent,
                indent: *indent,
            },
            Token::Visual => Tok::Visual,
            Token::End => Tok::End,
        }
    }
}

pub open spec fn text(s: Seq<char>) -> Tok {
    Tok::Text(s)
}

pub open spec fn softbreak() -> Tok {
    Tok::Break { blank: 1, offset: 0 }
}

pub open spec fn zerobreak() -> Tok {
    Tok::Break { blank: 0, offset: 0 }
}

pub open spec fn ibox(indent: isize) -> Tok {
    Tok::Begin { consistent: false, indent }
}

pub open spec fn cbox(indent: isize) -> Tok {
    Tok::Begin { consistent: true, indent }
}

/// The printer's state while the stream is laid out.
#[derive(Clone, Copy)]
pub enum Frame {
    /// A box printed flat.
    Fits,
    /// A box that is broken; `indent` is the indentation outside it.
    Broken { indent: usize, consistent: bool },
}

pub struct LayoutState {
    pub out: Seq<char>,
    /// The column reached, spaces still to be written included.
    pub col: usize,
    /// Indentation of a line broken in the innermost broken box.
    pub indent: usize,
    /// Spaces to write before the next word; dropped at a newline.
    pub pending: usize,
    pub frames: Seq<Frame>,
}

pub open spec fn cap(x: int) -> usize {
    if x < 0 {
        0
    } else if x > MAX_COLUMN {
        MAX_COLUMN
    } else {
        x as usize
    }
}

pub open spec fn spaces(n: nat) -> Seq<char> {
    Seq::new(n, |i: int| ' ')
}

/// Width of the tokens from `j` on, printed flat, up to the end of the box
/// that holds `j` or, with `to_break`, up to its next break.
pub open spec fn scan(m: Seq<Tok>, j: int, depth: nat, to_break: bool) -> nat
    decreases m.len() - j,
{
    if j < 0 || j >= m.len() {
        0
    } else {
        match m[j] {
            Tok::Text(s) => s.len() + scan(m, j + 1, depth, to_break),
            Tok::Break { blank, .. } => if depth == 0 && to_break {
                0
            } else {
                blank as nat + scan(m, j + 1, depth, to_break)
            },
            Tok::Hard => if depth == 0 && to_break {
                0
            } else {
                HARD_SIZE as nat + scan(m, j + 1, depth, to_break)
            },
            Tok::Begin { .. } => scan(m, j + 1, depth + 1, to_break),
            Tok::Visual => scan(m, j + 1, depth + 1, to_break),
            Tok::End => if depth == 0 {
                0
            } else {
                scan(m, j + 1, (depth - 1) as nat, to_break)
            },
        }
    }
}

pub open spec fn top_frame(frames: Seq<Frame>) -> Frame {
    if frames.len() == 0 {
        Frame::Broken { indent: 0, consistent: false }
    } else {
        frames.last()
    }
}

pub open spec fn break_fits(m: Seq<Tok>, i: int, st: LayoutState, blank: usize) -> bool {
    match top_frame(st.frames) {
        Frame::Fits => true,
        Frame::Broken { consistent, .. } => !consistent && st.col + blank + scan(m, i + 1, 0, true)
            <= WIDTH,
    }
}

pub open spec fn newline(st: LayoutState, indent: int) -> LayoutState {
    LayoutState {
        out: st.out.push('\n'),
        col: cap(indent),
        indent: st.indent,
        pending: cap(indent),
        frames: st.frames,
    }
}

pub open spec fn open_box(st: LayoutState, fits: bool, consistent: bool, indent: int) -> LayoutState {
    if fits {
        LayoutState { frames: st.frames.push(Frame::Fits), ..st }
    } else {
        LayoutState {
            frames: st.frames.push(Frame::Broken { indent: st.indent, consistent }),
            indent: cap(indent),
            ..st
        }
    }
}

/// The effect of the token at `i` on the printer's state.
pub open spec fn step(m: Seq<Tok>, i: int, st: LayoutState) -> LayoutState {
    match m[i] {
        Tok::Text(s) => LayoutState {
            out: st.out + spaces(st.pending as nat) + s,
            col: cap(st.col + s.len()),
            pending: 0,
            ..st
        },
        Tok::Break { blank, offset } => if break_fits(m, i, st, blank) {
            LayoutState { col: cap(st.col + blank), pending: cap(st.pending + blank), ..st }
        } else {
            newline(st, st.indent + offset)
        },
        Tok::Hard => newline(st, st.indent as int),
        Tok::Begin { consistent, indent } => open_box(
            st,
            st.col + scan(m, i + 1, 0, false) <= WIDTH,
            consistent,
            st.indent + indent,
        ),
        Tok::Visual => open_box(
            st,
            st.col + scan(m, i + 1, 0, false) <= WIDTH,
            true,
            st.col as int,
        ),
        Tok::End => if st.frames.len() == 0 {
            st
        } else {
            match st.frames.last() {
                Frame::Fits => LayoutState { frames: st.frames.drop_last(), ..st },
                Frame::Broken { indent, .. } => LayoutState {
                    frames: st.frames.drop_last(),
                    indent,
                    ..st
                },
            }
        },
    }
}

pub open spec fn run(m: Seq<Tok>, i: int, st: LayoutState) -> LayoutState
    decreases m.len() - i,
{
    if i < 0 || i >= m.len() {
        st
    } else {
        run(m, i + 1, step(m, i, st))
    }
}

pub open spec fn initial_state() -> LayoutState {
    LayoutState { out: Seq::empty(), col: 0, indent: 0, pending: 0, frames: Seq::empty() }
}

/// The text that a token stream lays out to.
pub open spec fn layout(m: Seq<Tok>) -> Seq<char> {
    run(m, 0, initial_state()).out
}

/// A hard break always starts a new line.
pub proof fn lemma_hard_break_ends_line(m: Seq<Tok>, i: int, st: LayoutState)
    requires
        0 <= i < m.len(),
        m[i] == Tok::Hard,
    ensures
        step(m, i, st).out == st.out.push('\n'),
{
}

/// The text of a token when nothing breaks.
pub open spec fn flat_piece(t: Tok) -> Seq<char> {
    match t {
        Tok::Text(s) => s,
        Tok::Break { blank, .. } => spaces(blank as nat),
        Tok::Hard => seq!['\n'],
        _ => Seq::empty(),
    }
}

/// The text of the tokens from `j` on when nothing breaks.
pub open spec fn flat_from(m: Seq<Tok>, j: int) -> Seq<char>
    decreases m.len() - j,
{
    if j < 0 || j >= m.len() {
        Seq::empty()
    } else {
        flat_piece(m[j]) + flat_from(m, j + 1)
    }
}

pub open spec fn has_no_hard(m: Seq<Tok>) -> bool {
    forall|i: int| 0 <= i < m.len() ==> !(#[trigger] m[i] is Hard)
}

pub open spec fn all_fit(frames: Seq<Frame>) -> bool {
    forall|k: int| 0 <= k < frames.len() ==> #[trigger] frames[k] is Fits
}

proof fn lemma_scan_within_flat(m: Seq<Tok>, j: int, depth: nat, to_break: bool)
    requires
        has_no_hard(m),
        0 <= j,
    ensures
        scan(m, j, depth, to_break) <= flat_from(m, j).len(),
    decreases m.len() - j,
{
    if j < m.len() {
        assert(!(m[j] is Hard));
        match m[j] {
            Tok::Begin { .. } => lemma_scan_within_flat(m, j + 1, depth + 1, to_break),
            Tok::Visual => lemma_scan_within_flat(m, j + 1, depth + 1, to_break),
            Tok::End => if depth > 0 {
                lemma_scan_within_flat(m, j + 1, (depth - 1) as nat, to_break);
            },
            _ => lemma_scan_within_flat(m, j + 1, depth, to_break),
        }
    }
}

proof fn lemma_run_flat(m: Seq<Tok>, i: int, st: LayoutState)
    requires
        has_no_hard(m),
        0 <= i <= m.len(),
        all_fit(st.frames),
        st.pending <= st.col,
        st.col == st.out.len() + st.pending,
        (st.out + spaces(st.pending as nat)) + flat_from(m, i) == flat_from(m, 0),
        st.col + flat_from(m, i).len() <= WIDTH,
    ensures
        exists|k: nat| run(m, i, st).out + spaces(k) == flat_from(m, 0),
    decreases m.len() - i,
{
    if i == m.len() {
        assert(flat_from(m, i) =~= Seq::<char>::empty());
        assert(run(m, i, st).out + spaces(st.pending as nat) == flat_from(m, 0));
    } else {
        let st2 = step(m, i, st);
        let rest = flat_from(m, i + 1);
        assert(flat_from(m, i) == flat_piece(m[i]) + rest);
        assert(!(m[i] is Hard));
        match m[i] {
            Tok::Text(s) => {
                assert(st2.out + spaces(st2.pending as nat) =~= (st.out + spaces(st.pending as nat))
                    + s);
            },
            Tok::Break { blank, .. } => {
                lemma_scan_within_flat(m, i + 1, 0, true);
                assert(break_fits(m, i, st, blank));
                assert(st2.out + spaces(st2.pending as nat) =~= (st.out + spaces(st.pending as nat))
                    + spaces(blank as nat));
            },
            Tok::Begin { .. } => {
                lemma_scan_within_flat(m, i + 1, 0, false);
                assert(st2.frames =~= st.frames.push(Frame::Fits));
            },
            Tok::Visual => {
                lemma_scan_within_flat(m, i + 1, 0, false);
                assert(st2.frames =~= st.frames.push(Frame::Fits));
            },
            Tok::End => {
                if st.frames.len() > 0 {
                    assert(st.frames.last() is Fits);
                }
            },
            Tok::Hard => {},
        }
        assert((st2.out + spaces(st2.pending as nat)) + rest =~= flat_from(m, 0));
        lemma_run_flat(m, i + 1, st2);
    }
}

/// Flat layout: a stream with no hard break whose flat text fits within the
/// line width is printed flat, but for the spaces of trailing breaks.
pub proof fn lemma_fitting_stream_is_flat(m: Seq<Tok>)
    requires
        has_no_hard(m),
        flat_from(m, 0).len() <= WIDTH,
    ensures
        exists|k: nat| layout(m) + spaces(k) == flat_from(m, 0),
{
    assert(initial_state().out + spaces(0) =~= Seq::<char>::empty());
    lemma_run_flat(m, 0, initial_state());
}

pub open spec fn frames_ok(frames: Seq<Frame>) -> bool {
    forall|k: int|
        0 <= k < frames.len() ==> match #[trigger] frames[k] {
            Frame::Fits => true,
            Frame::Broken { indent, .. } => indent <= MAX_COLUMN,
        }
}

pub open spec fn tokens_view(v: Seq<Token>) -> Seq<Tok> {
    v.map_values(|t: Token| t@)
}

/// Pretty printer: collects a token stream, then lays it out.
pub struct PrinterCtx {
    pub tokens: Vec<Token>,
}

impl View for PrinterCtx {
    type V = Seq<Tok>;

    open spec fn view(&self) -> Seq<Tok> {
        tokens_view(self.tokens@)
    }
}

fn cap_add(a: usize, b: usize) -> (r: usize)
    requires
        a <= MAX_COLUMN,
    ensures
        r == cap(a + b),
{
    if b >= MAX_COLUMN - a {
        MAX_COLUMN
    } else {
        a + b
    }
}

fn cap_signed(a: usize, b: isize) -> (r: usize)
    requires
        a <= MAX_COLUMN,
    ensures
        r == cap(a + b),
{
    let x: i128 = a as i128 + b as i128;
    if x < 0 {
        0
    } else if x > MAX_COLUMN as i128 {
        MAX_COLUMN
    } else {
        x as usize
    }
}

fn push_spaces(s: &mut String, n: usize)
    ensures
        final(s)@ == old(s)@ + spaces(n as nat),
{
    let mut k: usize = 0;
    while k < n
        invariant
            k <= n,
            s@ == old(s)@ + spaces(k as nat),
        decreases n - k,
    {
        let ghost before = s@;
        s.append(" ");
        proof {
            reveal_strlit(" ");
            assert(s@ =~= before + seq![' ']);
        }
        k = k + 1;
        assert(s@ =~= old(s)@ + spaces(k as nat));
    }
}

/// Whether the tokens from `j` on, up to the end of their box or, with
/// `to_break`, up to its next break, take at most `room` columns.
fn scan_fits(toks: &Vec<Token>, j: usize, to_break: bool, room: usize) -> (r: bool)
    ensures
        r == (scan(tokens_view(toks@), j as int, 0, to_break) <= room),
{
    let ghost m = tokens_view(toks@);
    if j >= toks.len() {
        return true;
    }
    let mut k: usize = j;
    let mut acc: usize = 0;
    let mut depth: usize = 0;
    while k < toks.len()
        invariant
            m == tokens_view(toks@),
            j <= k <= toks.len(),
            depth <= k - j,
            acc <= room,
            scan(m, j as int, 0, to_break) == acc + scan(m, k as int, depth as nat, to_break),
        decreases toks.len() - k,
    {
        match &toks[k] {
            Token::Text(s) => {
                let n = s.as_str().unicode_len();
                if n > room - acc {
                    return false;
                }
                acc = acc + n;
            },
            Token::Break { blank, .. } => {
                if depth == 0 && to_break {
                    return true;
                }
                if *blank > room - acc {
                    return false;
                }
                acc = acc + *blank;
            },
            Token::Hard => {
                if depth == 0 && to_break {
                    return true;
                }
                if HARD_SIZE > room - acc {
                    return false;
                }
                acc = acc + HARD_SIZE;
            },
            Token::Begin { .. } => {
                depth = depth + 1;
            },
            Token::Visual => {
                depth = depth + 1;
            },
            Token::End => {
                if depth == 0 {
                    return true;
                }
                depth = depth - 1;
            },
        }
        k = k + 1;
    }
    true
}

pub open spec fn state_of(
    out: Seq<char>,
    col: usize,
    indent: usize,
    pending: usize,
    frames: Seq<Frame>,
) -> LayoutState {
    LayoutState { out, col, indent, pending, frames }
}

fn push_newline(out: &mut String)
    ensures
        final(out)@ == old(out)@.push('\n'),
{
    let ghost before = out@;
    out.append("\n");
    proof {
        reveal_strlit("\n");
        assert(out@ =~= before.push('\n'));
    }
}

impl Default for PrinterCtx {
    fn default() -> (r: Self)
        ensures
            r@ == Seq::<Tok>::empty(),
    {
        Self::new()
    }
}

impl PrinterCtx {
    pub fn new() -> (r: Self)
        ensures
            r@ == Seq::<Tok>::empty(),
    {
        let r = PrinterCtx { tokens: Vec::new() };
        assert(r@ =~= Seq::<Tok>::empty());
        r
    }

    /// Lays out the tokens collected so far.
    pub fn finish(self) -> (r: String)
        ensures
            r@ == layout(self@),
    {
        let toks = &self.tokens;
        let ghost m = self@;
        let mut out = String::new();
        let mut col: usize = 0;
        let mut indent: usize = 0;
        let mut pending: usize = 0;
        let mut frames: Vec<Frame> = Vec::new();
        let mut i: usize = 0;
        assert(state_of(out@, col, indent, pending, frames@) == initial_state());
        while i < toks.len()
            invariant
                m == tokens_view(toks@),
                i <= toks.len(),
                col <= MAX_COLUMN,
                indent <= MAX_COLUMN,
                pending <= MAX_COLUMN,
                frames_ok(frames@),
                run(m, 0, initial_state()) == run(
                    m,
                    i as int,
                    state_of(out@, col, indent, pending, frames@),
                ),
            decreases toks.len() - i,
        {
            let ghost st = state_of(out@, col, indent, pending, frames@);
            match &toks[i] {
                Token::Text(s) => {
                    push_spaces(&mut out, pending);
                    out.append(s.as_str());
                    let n = s.as_str().unicode_len();
                    col = cap_add(col, n);
                    pending = 0;
                },
                Token::Break { blank, offset } => {
                    let inconsistent_fits = col <= WIDTH && *blank <= WIDTH - col && scan_fits(
                        toks,
                        i + 1,
                        true,
                        WIDTH - col - *blank,
                    );
                    let fits = if frames.len() == 0 {
                        inconsistent_fits
                    } else {
                        match frames[frames.len() - 1] {
                            Frame::Fits => true,
                            Frame::Broken { consistent, .. } => !consistent && inconsistent_fits,
                        }
                    };
                    if fits {
                        col = cap_add(col, *blank);
                        pending = cap_add(pending, *blank);
                    } else {
                        push_newline(&mut out);
                        col = cap_signed(indent, *offset);
                        pending = col;
                    }
                },
                Token::Hard => {
                    push_newline(&mut out);
                    col = indent;
                    pending = indent;
                },
                Token::Begin { consistent, indent: offset } => {
                    let fits = col <= WIDTH && scan_fits(toks, i + 1, false, WIDTH - col);
                    if fits {
                        frames.push(Frame::Fits);
                    } else {
                        frames.push(Frame::Broken { indent, consistent: *consistent });
                        indent = cap_signed(indent, *offset);
                    }
                },
                Token::Visual => {
                    let fits = col <= WIDTH && scan_fits(toks, i + 1, false, WIDTH - col);
                    if fits {
                        frames.push(Frame::Fits);
                    } else {
                        frames.push(Frame::Broken { indent, consistent: true });
                        indent = col;
                    }
                },
                Token::End => {
                    if frames.len() > 0 {
                        let f = frames.pop().unwrap();
                        match f {
                            Frame::Fits => {},
                            Frame::Broken { indent: outer, .. } => {
                                indent = outer;
                            },
                        }
                    }
                },
            }
            assert(step(m, i as int, st) =~= state_of(out@, col, indent, pending, frames@));
            i = i + 1;
        }
        out
    }

    fn push(&mut self, t: Token)
        ensures
            final(self)@ == old(self)@.push(t@),
    {
        let ghost v = t@;
        self.tokens.push(t);
        assert(self@ =~= old(self)@.push(v));
    }

    /// Prints a word.
    pub(crate) fn word(&mut self, s: &str)
        ensures
            final(self)@ == old(self)@.push(text(s@)),
    {
        self.push(Token::Text(String::from_str(s)));
    }

    /// Prints a word that the caller owns.
    pub(crate) fn word_string(&mut self, s: String)
        ensures
            final(self)@ == old(self)@.push(text(s@)),
    {
        self.push(Token::Text(s));
    }

    /// Non-breaking space, the same as `word(" ")`.
    pub(crate) fn nbsp(&mut self)
        ensures
            final(self)@ == old(self)@.push(text(" "@)),
    {
        self.word(" ");
    }

    /// Soft break: a space if the box fits, otherwise a newline.
    pub(crate) fn softbreak(&mut self)
        ensures
            final(self)@ == old(self)@.push(softbreak()),
    {
        self.push(Token::Break { blank: 1, offset: 0 });
    }

    /// Zero break: nothing if the box fits, otherwise a newline.
    pub(crate) fn zerobreak(&mut self)
        ensures
            final(self)@ == old(self)@.push(zerobreak()),
    {
        self.push(Token::Break { blank: 0, offset: 0 });
    }

    /// A break of `blank` spaces, or a newline indented by `offset`.
    pub(crate) fn break_offset(&mut self, blank: usize, offset: isize)
        ensures
            final(self)@ == old(self)@.push(Tok::Break { blank, offset }),
    {
        self.push(Token::Break { blank, offset });
    }

    /// Hard break: always a newline.
    pub(crate) fn hardbreak(&mut self)
        ensures
            final(self)@ == old(self)@.push(Tok::Hard),
    {
        self.push(Token::Hard);
    }

    /// Opens an inconsistent box.
    pub(crate) fn ibox(&mut self, indent: isize)
        ensures
            final(self)@ == old(self)@.push(ibox(indent)),
    {
        self.push(Token::Begin { consistent: false, indent });
    }

    /// Opens a consistent box.
    pub(crate) fn cbox(&mut self, indent: isize)
        ensures
            final(self)@ == old(self)@.push(cbox(indent)),
    {
        self.push(Token::Begin { consistent: true, indent });
    }

    /// Opens a box whose continuation lines align with its first column.
    pub(crate) fn valign(&mut self)
        ensures
            final(self)@ == old(self)@.push(Tok::Visual),
    {
        self.push(Token::Visual);
    }

    /// Closes the innermost box.
    pub(crate) fn end(&mut self)
        ensures
            final(self)@ == old(self)@.push(Tok::End),
    {
        self.push(Token::End);
    }
}

} // verus!
