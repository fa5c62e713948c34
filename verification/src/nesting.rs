//! How deeply a TOML text is nested, found by one walk over its characters.
//!
//! The walk tells apart what the TOML grammar tells apart for this purpose:
//! comments, the four kinds of strings, and what is neither. Only outside
//! comments and strings does a bracket or a brace open or close a level, a
//! comma or the end of a line end an entry, and an equals sign end a key;
//! and only in a key, or in the header of a table, does a dot lengthen a
//! path. The depth at a place is the number of brackets and braces open
//! there plus, for each of them and for the top level, the dots in the key
//! of the entry under way in it. The nesting of a text is the greatest depth
//! on the walk.
//!
//! The nesting does not grow with the length of a text: lines, table
//! headers, array items, numbers and dots inside strings leave it where it
//! is.

use vstd::prelude::*;
use vstd::string::StrSliceExecFns;

verus! {

/// Where the walk stands with respect to comments and strings.
#[derive(Clone, Copy, Debug, PartialEq, Eq, Structural)]
pub enum Mode {
    /// Outside comments and strings.
    Code,
    /// In a comment, which ends with its line.
    Comment,
    /// At the start of a string, after its first quote or, with `second`,
    /// after two quotes: an empty string, or two thirds of the opening of a
    /// multi-line string. `basic` tells a basic string, in double quotes, from
    /// a literal one, in single quotes.
    Opening { basic: bool, second: bool },
    /// In a string of one line.
    Single { basic: bool },
    /// In a basic string of one line, after a backslash.
    SingleEscape,
    /// In a multi-line string, after `quotes` closing quotes in a row, at
    /// most two.
    Multi { basic: bool, quotes: u8 },
    /// In a multi-line basic string, after a backslash.
    MultiEscape,
    /// After the three quotes that close a multi-line string. Up to two
    /// more quotes still belong to the string; with `extra`, one has been
    /// taken.
    Closing { basic: bool, extra: bool },
}

/// One level of the walk: the top level, or what an open bracket or brace
/// holds.
pub struct Frame {
    /// The depth in this level.
    pub depth: nat,
    /// Whether the level holds entries with keys: the top level and what a
    /// brace opened do, what a bracket opened does not.
    pub keyed: bool,
    /// Whether a value is due or under way in this level, and no key: after
    /// the equals sign of an entry, and throughout an array.
    pub value: bool,
}

/// The state of the walk.
pub struct Scan {
    /// Where the walk stands with respect to comments and strings.
    pub mode: Mode,
    /// The open levels, from the top level to the innermost. Never empty.
    pub frames: Seq<Frame>,
    /// The greatest depth so far.
    pub peak: nat,
}

/// The quote that opens and closes a string of the given kind.
pub open spec fn quote(basic: bool) -> char {
    if basic {
        '"'
    } else {
        '\''
    }
}

/// The greater of two numbers.
pub open spec fn greater(a: nat, b: nat) -> nat {
    if a >= b {
        a
    } else {
        b
    }
}

/// The top level at the start of a line.
pub open spec fn top_frame() -> Frame {
    Frame { depth: 0, keyed: true, value: false }
}

impl Scan {
    /// The state before the first character.
    pub open spec fn start() -> Scan {
        Scan { mode: Mode::Code, frames: seq![top_frame()], peak: 0 }
    }

    /// Whether the state is one that a walk can be in.
    pub open spec fn well_formed(self) -> bool {
        &&& self.frames.len() >= 1
        &&& forall|i: int|
            0 <= i < self.frames.len() ==> (#[trigger] self.frames[i]).depth <= self.peak
    }

    /// The innermost level.
    pub open spec fn frame(self) -> Frame {
        self.frames.last()
    }

    /// The depth at which an entry starts in the innermost level: one more
    /// than the depth around the bracket or brace that opened it, and zero at
    /// the top level.
    pub open spec fn entry_depth(self) -> nat {
        if self.frames.len() > 1 {
            self.frames[self.frames.len() - 2].depth + 1
        } else {
            0
        }
    }

    /// The state in another mode.
    pub open spec fn in_mode(self, mode: Mode) -> Scan {
        Scan { mode, ..self }
    }

    /// The state outside comments and strings with the innermost level set
    /// anew.
    pub open spec fn with_frame(self, frame: Frame) -> Scan {
        Scan {
            mode: Mode::Code,
            frames: self.frames.update(self.frames.len() - 1, frame),
            peak: greater(self.peak, frame.depth),
        }
    }

    /// The state outside comments and strings with one more level open.
    pub open spec fn opened(self, frame: Frame) -> Scan {
        Scan {
            mode: Mode::Code,
            frames: self.frames.push(frame),
            peak: greater(self.peak, frame.depth),
        }
    }

    /// The state after a character outside comments and strings.
    ///
    /// A bracket where a value is due opens an array, which holds values
    /// only; a bracket where a key is due opens the header of a table, whose
    /// dots count.
    pub open spec fn code(self, ch: char) -> Scan {
        let frame = self.frame();
        if ch == '#' {
            self.in_mode(Mode::Comment)
        } else if ch == '"' || ch == '\'' {
            self.in_mode(Mode::Opening { basic: ch == '"', second: false })
        } else if ch == '[' {
            self.opened(Frame { depth: frame.depth + 1, keyed: false, value: frame.value })
        } else if ch == '{' {
            self.opened(Frame { depth: frame.depth + 1, keyed: true, value: false })
        } else if ch == ']' || ch == '}' {
            if self.frames.len() > 1 {
                Scan { mode: Mode::Code, frames: self.frames.drop_last(), peak: self.peak }
            } else {
                self.in_mode(Mode::Code)
            }
        } else if ch == '.' && !frame.value {
            self.with_frame(Frame { depth: frame.depth + 1, ..frame })
        } else if ch == '=' {
            self.with_frame(Frame { value: true, ..frame })
        } else if ch == ',' {
            self.with_frame(
                Frame {
                    depth: self.entry_depth(),
                    keyed: frame.keyed,
                    value: frame.value && !frame.keyed,
                },
            )
        } else if ch == '\n' && self.frames.len() == 1 {
            self.with_frame(top_frame())
        } else {
            self.in_mode(Mode::Code)
        }
    }

    /// The state after the next character.
    pub open spec fn step(self, ch: char) -> Scan {
        match self.mode {
            Mode::Code => self.code(ch),
            Mode::Comment => if ch == '\n' {
                self.code(ch)
            } else {
                self
            },
            Mode::Opening { basic, second } => if ch == quote(basic) {
                if second {
                    self.in_mode(Mode::Multi { basic, quotes: 0 })
                } else {
                    self.in_mode(Mode::Opening { basic, second: true })
                }
            } else if second {
                self.code(ch)
            } else if basic && ch == '\\' {
                self.in_mode(Mode::SingleEscape)
            } else {
                self.in_mode(Mode::Single { basic })
            },
            Mode::Single { basic } => if ch == quote(basic) {
                self.in_mode(Mode::Code)
            } else if basic && ch == '\\' {
                self.in_mode(Mode::SingleEscape)
            } else {
                self
            },
            Mode::SingleEscape => self.in_mode(Mode::Single { basic: true }),
            Mode::Multi { basic, quotes } => if ch == quote(basic) {
                if quotes >= 2 {
                    self.in_mode(Mode::Closing { basic, extra: false })
                } else {
                    self.in_mode(Mode::Multi { basic, quotes: (quotes + 1) as u8 })
                }
            } else if basic && ch == '\\' {
                self.in_mode(Mode::MultiEscape)
            } else {
                self.in_mode(Mode::Multi { basic, quotes: 0 })
            },
            Mode::MultiEscape => self.in_mode(Mode::Multi { basic: true, quotes: 0 }),
            Mode::Closing { basic, extra } => if ch == quote(basic) {
                if extra {
                    self.in_mode(Mode::Code)
                } else {
                    self.in_mode(Mode::Closing { basic, extra: true })
                }
            } else {
                self.code(ch)
            },
        }
    }
}

/// The state after a walk over the whole text.
pub open spec fn scan(text: Seq<char>) -> Scan
    decreases text.len(),
{
    if text.len() == 0 {
        Scan::start()
    } else {
        scan(text.drop_last()).step(text.last())
    }
}

/// How deeply a text is nested: the greatest depth on the walk over it.
pub open spec fn nesting_of(text: Seq<char>) -> nat {
    scan(text).peak
}

/// A step keeps a state well formed, and raises the greatest depth by one at
/// most.
pub proof fn lemma_step(state: Scan, ch: char)
    requires
        state.well_formed(),
    ensures
        state.step(ch).well_formed(),
        state.peak <= state.step(ch).peak <= state.peak + 1,
{
}

/// Every walk ends in a well-formed state, and no text is nested deeper than
/// it is long.
pub proof fn lemma_scan(text: Seq<char>)
    ensures
        scan(text).well_formed(),
        nesting_of(text) <= text.len(),
    decreases text.len(),
{
    if text.len() > 0 {
        lemma_scan(text.drop_last());
        lemma_step(scan(text.drop_last()), text.last());
    }
}

/// Whether a character can raise the depth: a bracket, a brace or a dot.
pub open spec fn is_mark(ch: char) -> bool {
    ch == '[' || ch == '{' || ch == '.'
}

/// A text without bracket, brace and dot is not nested at all, however long
/// it is.
pub proof fn law_unmarked_text_is_flat(text: Seq<char>)
    requires
        forall|i: int| 0 <= i < text.len() ==> !is_mark(#[trigger] text[i]),
    ensures
        nesting_of(text) == 0,
        scan(text).frames.len() == 1,
        scan(text).frames[0].depth == 0,
    decreases text.len(),
{
    if text.len() > 0 {
        let before = text.drop_last();
        assert forall|i: int| 0 <= i < before.len() implies !is_mark(#[trigger] before[i]) by {
            assert(before[i] == text[i]);
        }
        law_unmarked_text_is_flat(before);
        assert(!is_mark(text[text.len() - 1]));
    }
}

/// What stands in a comment or in a string leaves the depth as it is.
pub proof fn law_comments_and_strings_are_skipped(state: Scan, ch: char)
    requires
        state.well_formed(),
        state.mode is Comment || state.mode is Single || state.mode is SingleEscape
            || state.mode is Multi || state.mode is MultiEscape,
        !(state.mode is Comment && ch == '\n'),
    ensures
        state.step(ch).frames == state.frames,
        state.step(ch).peak == state.peak,
{
}

/// The end of a line at the top level, outside strings, ends what the line
/// began: the next line starts at depth zero, whatever the lines before it
/// held.
pub proof fn law_lines_start_at_depth_zero(state: Scan)
    requires
        state.well_formed(),
        state.mode is Code || state.mode is Comment,
        state.frames.len() == 1,
    ensures
        state.step('\n').mode == Mode::Code,
        state.step('\n').frames == seq![top_frame()],
        state.step('\n').peak == state.peak,
{
    assert(state.step('\n').frames =~= seq![top_frame()]);
}

/// A dot where a value is due or under way, as in a number, leaves the depth
/// as it is.
pub proof fn law_dots_in_values_are_skipped(state: Scan)
    requires
        state.well_formed(),
        state.mode is Code,
        state.frame().value,
    ensures
        state.step('.').frames == state.frames,
        state.step('.').peak == state.peak,
{
}

/// One level of the walk as it is run.
#[derive(Clone, Copy)]
struct Level {
    depth: usize,
    keyed: bool,
    value: bool,
}

impl Level {
    /// The level as a mathematical value.
    spec fn model(self) -> Frame {
        Frame { depth: self.depth as nat, keyed: self.keyed, value: self.value }
    }
}

/// The walk as it is run.
struct Walk {
    mode: Mode,
    levels: Vec<Level>,
    peak: usize,
}

impl Walk {
    /// The state of the walk as a mathematical value.
    spec fn model(self) -> Scan {
        Scan {
            mode: self.mode,
            frames: self.levels@.map_values(|level: Level| level.model()),
            peak: self.peak as nat,
        }
    }

    /// Sets the innermost level anew.
    fn set_level(&mut self, level: Level)
        requires
            old(self).model().well_formed(),
        ensures
            final(self).model() == old(self).model().with_frame(level.model()),
    {
        let last = self.levels.len() - 1;
        self.levels.set(last, level);
        if level.depth > self.peak {
            self.peak = level.depth;
        }
        self.mode = Mode::Code;
        assert(self.model().frames =~= old(self).model().frames.update(
            last as int,
            level.model(),
        ));
    }

    /// Opens one more level.
    fn open(&mut self, level: Level)
        requires
            old(self).model().well_formed(),
        ensures
            final(self).model() == old(self).model().opened(level.model()),
    {
        self.levels.push(level);
        if level.depth > self.peak {
            self.peak = level.depth;
        }
        self.mode = Mode::Code;
        assert(self.model().frames =~= old(self).model().frames.push(level.model()));
    }

    /// Takes a character outside comments and strings.
    fn code(&mut self, ch: char)
        requires
            old(self).model().well_formed(),
            old(self).peak < usize::MAX,
        ensures
            final(self).model() == old(self).model().code(ch),
    {
        let level = self.levels[self.levels.len() - 1];
        assert(level.model() == self.model().frames[self.levels.len() - 1]);
        if ch == '#' {
            self.mode = Mode::Comment;
        } else if ch == '"' || ch == '\'' {
            self.mode = Mode::Opening { basic: ch == '"', second: false };
        } else if ch == '[' {
            self.open(Level { depth: level.depth + 1, keyed: false, value: level.value });
        } else if ch == '{' {
            self.open(Level { depth: level.depth + 1, keyed: true, value: false });
        } else if ch == ']' || ch == '}' {
            if self.levels.len() > 1 {
                self.levels.pop();
                assert(self.model().frames =~= old(self).model().frames.drop_last());
            }
            self.mode = Mode::Code;
        } else if ch == '.' && !level.value {
            self.set_level(Level { depth: level.depth + 1, keyed: level.keyed, value: false });
        } else if ch == '=' {
            self.set_level(Level { depth: level.depth, keyed: level.keyed, value: true });
        } else if ch == ',' {
            let entry_depth = if self.levels.len() > 1 {
                let around = self.levels[self.levels.len() - 2];
                assert(around.model() == self.model().frames[self.levels.len() - 2]);
                around.depth + 1
            } else {
                0
            };
            self.set_level(
                Level { depth: entry_depth, keyed: level.keyed, value: level.value && !level.keyed },
            );
        } else if ch == '\n' && self.levels.len() == 1 {
            self.set_level(Level { depth: 0, keyed: true, value: false });
        } else {
            self.mode = Mode::Code;
        }
    }

    /// Takes the next character.
    fn step(&mut self, ch: char)
        requires
            old(self).model().well_formed(),
            old(self).peak < usize::MAX,
        ensures
            final(self).model() == old(self).model().step(ch),
    {
        match self.mode {
            Mode::Code => self.code(ch),
            Mode::Comment => {
                if ch == '\n' {
                    self.code(ch);
                }
            },
            Mode::Opening { basic, second } => {
                let closes = if basic {
                    ch == '"'
                } else {
                    ch == '\''
                };
                if closes {
                    if second {
                        self.mode = Mode::Multi { basic, quotes: 0 };
                    } else {
                        self.mode = Mode::Opening { basic, second: true };
                    }
                } else if second {
                    self.code(ch);
                } else if basic && ch == '\\' {
                    self.mode = Mode::SingleEscape;
                } else {
                    self.mode = Mode::Single { basic };
                }
            },
            Mode::Single { basic } => {
                let closes = if basic {
                    ch == '"'
                } else {
                    ch == '\''
                };
                if closes {
                    self.mode = Mode::Code;
                } else if basic && ch == '\\' {
                    self.mode = Mode::SingleEscape;
                }
            },
            Mode::SingleEscape => {
                self.mode = Mode::Single { basic: true };
            },
            Mode::Multi { basic, quotes } => {
                let closes = if basic {
                    ch == '"'
                } else {
                    ch == '\''
                };
                if closes {
                    if quotes >= 2 {
                        self.mode = Mode::Closing { basic, extra: false };
                    } else {
                        self.mode = Mode::Multi { basic, quotes: quotes + 1 };
                    }
                } else if basic && ch == '\\' {
                    self.mode = Mode::MultiEscape;
                } else {
                    self.mode = Mode::Multi { basic, quotes: 0 };
                }
            },
            Mode::MultiEscape => {
                self.mode = Mode::Multi { basic: true, quotes: 0 };
            },
            Mode::Closing { basic, extra } => {
                let closes = if basic {
                    ch == '"'
                } else {
                    ch == '\''
                };
                if closes {
                    if extra {
                        self.mode = Mode::Code;
                    } else {
                        self.mode = Mode::Closing { basic, extra: true };
                    }
                } else {
                    self.code(ch);
                }
            },
        }
    }
}

/// Finds how deeply a text is nested.
pub fn nesting(text: &str) -> (deepest: usize)
    ensures
        deepest == nesting_of(text@),
{
    let length = text.unicode_len();
    let mut walk = Walk { mode: Mode::Code, levels: Vec::new(), peak: 0 };
    walk.levels.push(Level { depth: 0, keyed: true, value: false });
    assert(walk.model().frames =~= seq![top_frame()]);
    assert(text@.take(0) =~= Seq::<char>::empty());
    for ch in it: text.chars()
        invariant
            it.seq() == text@,
            length == text@.len(),
            walk.model() == scan(text@.take(it.index())),
    {
        proof {
            lemma_scan(text@.take(it.index()));
            assert(text@.take(it.index() + 1).drop_last() =~= text@.take(it.index()));
            assert(text@.take(it.index() + 1).last() == ch);
        }
        walk.step(ch);
    }
    assert(text@.take(text@.len() as int) =~= text@);
    walk.peak
}

} // verus!
