//! The script language: one keyword on a line, and for most keywords a
//! second line with its arguments, separated by single blanks.
//!
//! | keyword              | arguments                         |
//! |----------------------|-----------------------------------|
//! | `line`               | `x0 y0 z0 x1 y1 z1`               |
//! | `ident`              |                                   |
//! | `scale`              | `sx sy sz`                        |
//! | `translate`, `move`  | `tx ty tz`                        |
//! | `rotate`             | `x`, `y` or `z`, and degrees      |
//! | `apply`              |                                   |
//! | `display`            |                                   |
//! | `save`               | a file name: the whole line       |
//! | `circle`             | `cx cy cz r`                      |
//! | `hermite`            | `x0 y0 x1 y1 rx0 ry0 rx1 ry1`     |
//! | `bezier`             | `x0 y0 x1 y1 x2 y2 x3 y3`         |
//! | `clear`              |                                   |
//! | `box`                | `x y z width height depth`        |
//! | `sphere`             | `x y z r`                         |
//! | `torus`              | `x y z r1 r2`                     |
//! | `quit`               |                                   |
//!
//! A line that starts with `#` where a keyword is expected is a comment.
//! A script is decoded as a whole before any of it is carried out; decoding
//! ends at `quit`, and what follows it is not read.

use crate::fixed::Fixed;
use crate::number::number_ok;
use crate::number::number_raw;
use crate::number::parse_number;
use vstd::prelude::*;
use vstd::string::is_ascii_spec_bytes;

verus! {

/// A coordinate axis.
#[derive(Clone, Copy, Debug, PartialEq, Eq, Structural)]
pub enum Axis {
    X,
    Y,
    Z,
}

/// One decoded command.
#[derive(Clone, Copy, Debug, PartialEq, Eq, Structural)]
pub enum Command {
    /// Add the segment from `(x0, y0, z0)` to `(x1, y1, z1)` to the edges.
    Line { x0: Fixed, y0: Fixed, z0: Fixed, x1: Fixed, y1: Fixed, z1: Fixed },
    /// Make the accumulated transform the identity.
    Ident,
    /// Take a scaling into the accumulated transform.
    Scale { sx: Fixed, sy: Fixed, sz: Fixed },
    /// Take a translation into the accumulated transform.
    Translate { tx: Fixed, ty: Fixed, tz: Fixed },
    /// Take a rotation by `theta` degrees into the accumulated transform.
    Rotate { axis: Axis, theta: Fixed },
    /// Move all edges and polygons by the accumulated transform.
    Apply,
    /// Draw the picture and show it.
    Display,
    /// Draw the picture and save it under the name on line `line` of the
    /// script, lines counted from zero.
    Save { line: usize },
    /// Add a circle to the edges.
    Circle { cx: Fixed, cy: Fixed, cz: Fixed, r: Fixed },
    /// Add a Hermite curve to the edges.
    Hermite {
        x0: Fixed,
        y0: Fixed,
        x1: Fixed,
        y1: Fixed,
        rx0: Fixed,
        ry0: Fixed,
        rx1: Fixed,
        ry1: Fixed,
    },
    /// Add a Bezier curve to the edges.
    Bezier { x0: Fixed, y0: Fixed, x1: Fixed, y1: Fixed, x2: Fixed, y2: Fixed, x3: Fixed, y3: Fixed },
    /// Empty the edges and the polygons.
    Clear,
    /// Add a box to the polygons.
    Prism { x: Fixed, y: Fixed, z: Fixed, width: Fixed, height: Fixed, depth: Fixed },
    /// Add a sphere to the polygons.
    Sphere { x: Fixed, y: Fixed, z: Fixed, r: Fixed },
    /// Add a torus to the polygons.
    Torus { x: Fixed, y: Fixed, z: Fixed, r1: Fixed, r2: Fixed },
}

/// What can be wrong with a script or with running it.
#[derive(Clone, Copy, Debug, PartialEq, Eq, Structural)]
pub enum ErrorKind {
    /// An argument line is missing, has a word that is not a number, or has
    /// too few or too many words.
    MalformedArgument,
    /// A line that should hold a keyword holds none.
    UnknownCommand,
    /// The axis of a rotation is not `x`, `y` or `z`.
    InvalidAxis,
    /// A file cannot be read or written. Decoding never reports this; it is
    /// here for whoever reads the script and writes the picture.
    MissingFile,
}

/// An error in a script: its kind, the line (counted from zero) and the
/// word of that line (counted from zero) at which it was found.
#[derive(Clone, Copy, Debug, PartialEq, Eq, Structural)]
pub struct ScriptError {
    pub kind: ErrorKind,
    pub line: usize,
    pub field: usize,
}

/// The keywords.
#[derive(Clone, Copy, Debug, PartialEq, Eq, Structural)]
pub enum Word {
    Line,
    Ident,
    Scale,
    Translate,
    Rotate,
    Apply,
    Display,
    Save,
    Quit,
    Circle,
    Hermite,
    Bezier,
    Clear,
    Prism,
    Sphere,
    Torus,
    Comment,
}

/// What decoding finds at one position of a script.
#[derive(Clone, Copy, Debug, PartialEq, Eq, Structural)]
pub enum Step {
    /// A command, and the line at which decoding goes on.
    Emit(Command, usize),
    /// A comment, and the line at which decoding goes on.
    Skip(usize),
    /// The end of what is to be decoded.
    Stop,
    /// An error.
    Fail(ScriptError),
}

/// Whether the bytes of `line` are the ASCII characters of `word`.
pub open spec fn spells(line: Seq<u8>, word: Seq<char>) -> bool {
    line.len() == word.len() && forall|i: int| 0 <= i < line.len() ==> line[i] == word[i] as u8
}

/// The keyword that a line holds, if any.
pub open spec fn keyword(line: Seq<u8>) -> Option<Word> {
    if spells(line, "line"@) {
        Some(Word::Line)
    } else if spells(line, "ident"@) {
        Some(Word::Ident)
    } else if spells(line, "scale"@) {
        Some(Word::Scale)
    } else if spells(line, "translate"@) || spells(line, "move"@) {
        Some(Word::Translate)
    } else if spells(line, "rotate"@) {
        Some(Word::Rotate)
    } else if spells(line, "apply"@) {
        Some(Word::Apply)
    } else if spells(line, "display"@) {
        Some(Word::Display)
    } else if spells(line, "save"@) {
        Some(Word::Save)
    } else if spells(line, "quit"@) {
        Some(Word::Quit)
    } else if spells(line, "circle"@) {
        Some(Word::Circle)
    } else if spells(line, "hermite"@) {
        Some(Word::Hermite)
    } else if spells(line, "bezier"@) {
        Some(Word::Bezier)
    } else if spells(line, "clear"@) {
        Some(Word::Clear)
    } else if spells(line, "box"@) {
        Some(Word::Prism)
    } else if spells(line, "sphere"@) {
        Some(Word::Sphere)
    } else if spells(line, "torus"@) {
        Some(Word::Torus)
    } else if line.len() > 0 && line[0] == 35 {
        Some(Word::Comment)
    } else {
        None
    }
}

/// How many numbers the argument line of a keyword holds.
pub open spec fn arity(w: Word) -> nat {
    match w {
        Word::Line => 6,
        Word::Scale => 3,
        Word::Translate => 3,
        Word::Circle => 4,
        Word::Hermite => 8,
        Word::Bezier => 8,
        Word::Prism => 6,
        Word::Sphere => 4,
        Word::Torus => 5,
        _ => 0,
    }
}

/// The command of a keyword with numeric arguments `v`.
pub open spec fn build(w: Word, v: Seq<Fixed>) -> Command {
    match w {
        Word::Line => Command::Line { x0: v[0], y0: v[1], z0: v[2], x1: v[3], y1: v[4], z1: v[5] },
        Word::Scale => Command::Scale { sx: v[0], sy: v[1], sz: v[2] },
        Word::Translate => Command::Translate { tx: v[0], ty: v[1], tz: v[2] },
        Word::Circle => Command::Circle { cx: v[0], cy: v[1], cz: v[2], r: v[3] },
        Word::Hermite => Command::Hermite {
            x0: v[0],
            y0: v[1],
            x1: v[2],
            y1: v[3],
            rx0: v[4],
            ry0: v[5],
            rx1: v[6],
            ry1: v[7],
        },
        Word::Bezier => Command::Bezier {
            x0: v[0],
            y0: v[1],
            x1: v[2],
            y1: v[3],
            x2: v[4],
            y2: v[5],
            x3: v[6],
            y3: v[7],
        },
        Word::Prism => Command::Prism {
            x: v[0],
            y: v[1],
            z: v[2],
            width: v[3],
            height: v[4],
            depth: v[5],
        },
        Word::Sphere => Command::Sphere { x: v[0], y: v[1], z: v[2], r: v[3] },
        Word::Torus => Command::Torus { x: v[0], y: v[1], z: v[2], r1: v[3], r2: v[4] },
        _ => Command::Ident,
    }
}

/// The end of the word that starts at `pos`: the next blank, or the end of
/// the line.
pub open spec fn word_end(s: Seq<u8>, pos: int) -> int
    decreases s.len() - pos,
{
    if pos < s.len() && s[pos] != 32 {
        word_end(s, pos + 1)
    } else {
        pos
    }
}

/// The `count` numbers that the line holds from `pos` on, where the word at
/// `pos` is word number `index` of the line; or the number of the first word
/// that is wrong: one that is no number, one too many, or, one past the last
/// word, one that is missing.
pub open spec fn numbers(s: Seq<u8>, pos: int, count: nat, index: int) -> Result<Seq<Fixed>, int>
    decreases count,
{
    let e = word_end(s, pos);
    let v = Fixed { raw: number_raw(s, pos, e) as i32 };
    if !number_ok(s, pos, e) {
        Err(index)
    } else if count <= 1 {
        if e == s.len() {
            Ok(seq![v])
        } else {
            Err(index + 1)
        }
    } else if e == s.len() {
        Err(index + 1)
    } else {
        match numbers(s, e + 1, (count - 1) as nat, index + 1) {
            Ok(rest) => Ok(seq![v] + rest),
            Err(k) => Err(k),
        }
    }
}

/// The numbers `found` so far, followed by what the rest of the line gives.
pub open spec fn after(found: Seq<Fixed>, rest: Result<Seq<Fixed>, int>) -> Result<Seq<Fixed>, int> {
    match rest {
        Ok(more) => Ok(found + more),
        Err(k) => Err(k),
    }
}

/// The axis that a word names.
pub open spec fn axis_of(s: Seq<u8>, e: int) -> Option<Axis> {
    if e == 1 && s[0] == 120 {
        Some(Axis::X)
    } else if e == 1 && s[0] == 121 {
        Some(Axis::Y)
    } else if e == 1 && s[0] == 122 {
        Some(Axis::Z)
    } else {
        None
    }
}

/// The rotation that an argument line describes, or the kind of error and
/// the number of the word that is wrong.
pub open spec fn rotation(s: Seq<u8>) -> Result<Command, (ErrorKind, int)> {
    let e = word_end(s, 0);
    match axis_of(s, e) {
        None => Err((ErrorKind::InvalidAxis, 0)),
        Some(axis) => {
            if e == s.len() {
                Err((ErrorKind::MalformedArgument, 1))
            } else {
                match numbers(s, e + 1, 1, 1) {
                    Ok(v) => Ok(Command::Rotate { axis, theta: v[0] }),
                    Err(k) => Err((ErrorKind::MalformedArgument, k)),
                }
            }
        },
    }
}

/// What decoding finds at line `i` of a script.
pub open spec fn step_at(lines: Seq<Seq<u8>>, i: int) -> Step {
    let missing = Step::Fail(
        ScriptError { kind: ErrorKind::MalformedArgument, line: (i + 1) as usize, field: 0 },
    );
    match keyword(lines[i]) {
        None => Step::Fail(
            ScriptError { kind: ErrorKind::UnknownCommand, line: i as usize, field: 0 },
        ),
        Some(Word::Comment) => Step::Skip((i + 1) as usize),
        Some(Word::Quit) => Step::Stop,
        Some(Word::Ident) => Step::Emit(Command::Ident, (i + 1) as usize),
        Some(Word::Apply) => Step::Emit(Command::Apply, (i + 1) as usize),
        Some(Word::Display) => Step::Emit(Command::Display, (i + 1) as usize),
        Some(Word::Clear) => Step::Emit(Command::Clear, (i + 1) as usize),
        Some(Word::Save) => if i + 1 < lines.len() {
            Step::Emit(Command::Save { line: (i + 1) as usize }, (i + 2) as usize)
        } else {
            missing
        },
        Some(Word::Rotate) => if i + 1 < lines.len() {
            match rotation(lines[i + 1]) {
                Ok(c) => Step::Emit(c, (i + 2) as usize),
                Err((kind, k)) => Step::Fail(
                    ScriptError { kind, line: (i + 1) as usize, field: k as usize },
                ),
            }
        } else {
            missing
        },
        Some(w) => if i + 1 < lines.len() {
            match numbers(lines[i + 1], 0, arity(w), 0) {
                Ok(v) => Step::Emit(build(w, v), (i + 2) as usize),
                Err(k) => Step::Fail(
                    ScriptError {
                        kind: ErrorKind::MalformedArgument,
                        line: (i + 1) as usize,
                        field: k as usize,
                    },
                ),
            }
        } else {
            missing
        },
    }
}

/// The commands of a script from line `i` on, or the first error.
pub open spec fn decoded_from(lines: Seq<Seq<u8>>, i: int) -> Result<Seq<Command>, ScriptError>
    decreases lines.len() - i,
{
    if i < 0 || i >= lines.len() {
        Ok(Seq::empty())
    } else {
        match step_at(lines, i) {
            Step::Stop => Ok(Seq::empty()),
            Step::Fail(e) => Err(e),
            Step::Skip(next) => if next > i {
                decoded_from(lines, next as int)
            } else {
                Ok(Seq::empty())
            },
            Step::Emit(c, next) => if next > i {
                match decoded_from(lines, next as int) {
                    Ok(rest) => Ok(seq![c] + rest),
                    Err(e) => Err(e),
                }
            } else {
                Ok(Seq::empty())
            },
        }
    }
}

/// The commands of a whole script, or its first error.
pub open spec fn decoded(lines: Seq<Seq<u8>>) -> Result<Seq<Command>, ScriptError> {
    decoded_from(lines, 0)
}

/// The commands `found` so far, followed by what the rest of the script
/// gives.
pub open spec fn followed_by(
    found: Seq<Command>,
    rest: Result<Seq<Command>, ScriptError>,
) -> Result<Seq<Command>, ScriptError> {
    match rest {
        Ok(more) => Ok(found + more),
        Err(e) => Err(e),
    }
}

/// The lines of a script as sequences of bytes.
pub open spec fn text_of(lines: Seq<Vec<u8>>) -> Seq<Seq<u8>> {
    Seq::new(lines.len(), |i: int| lines[i]@)
}

/// Decoding never reports a missing file, and an error lies on a line of
/// the script or just past its last line.
pub proof fn lemma_decoding_errors(lines: Seq<Seq<u8>>, i: int)
    requires
        0 <= i,
        lines.len() < usize::MAX,
    ensures
        decoded_from(lines, i) matches Err(e) ==> e.kind != ErrorKind::MissingFile && i <= e.line
            <= lines.len(),
    decreases lines.len() - i,
{
    if i < lines.len() {
        match step_at(lines, i) {
            Step::Skip(next) => {
                if next > i {
                    lemma_decoding_errors(lines, next as int);
                }
            },
            Step::Emit(c, next) => {
                if next > i {
                    lemma_decoding_errors(lines, next as int);
                }
            },
            _ => {},
        }
    }
}

/// Whether the line spells the word.
fn is_keyword(line: &Vec<u8>, word: &str) -> (r: bool)
    requires
        word.is_ascii(),
    ensures
        r == spells(line@, word@),
{
    broadcast use is_ascii_spec_bytes;

    let w = word.as_bytes();
    assert(w@ =~= Seq::new(word@.len(), |i: int| word@[i] as u8));
    if w.len() != line.len() {
        return false;
    }
    let n: usize = line.len();
    let mut i: usize = 0;
    while i < n
        invariant
            i <= n,
            n == line@.len(),
            n == w@.len(),
            n == word@.len(),
            forall|k: int| 0 <= k < n ==> w@[k] == word@[k] as u8,
            forall|k: int| 0 <= k < i ==> line@[k] == word@[k] as u8,
        decreases n - i,
    {
        if line[i] != w[i] {
            return false;
        }
        i += 1;
    }
    true
}

/// The keyword that the line holds, if any.
pub fn classify(line: &Vec<u8>) -> (r: Option<Word>)
    ensures
        r == keyword(line@),
{
    proof {
        reveal_strlit("line");
        reveal_strlit("ident");
        reveal_strlit("scale");
        reveal_strlit("translate");
        reveal_strlit("move");
        reveal_strlit("rotate");
        reveal_strlit("apply");
        reveal_strlit("display");
        reveal_strlit("save");
        reveal_strlit("quit");
        reveal_strlit("circle");
        reveal_strlit("hermite");
        reveal_strlit("bezier");
        reveal_strlit("clear");
        reveal_strlit("box");
        reveal_strlit("sphere");
        reveal_strlit("torus");
    }
    if is_keyword(line, "line") {
        Some(Word::Line)
    } else if is_keyword(line, "ident") {
        Some(Word::Ident)
    } else if is_keyword(line, "scale") {
        Some(Word::Scale)
    } else if is_keyword(line, "translate") || is_keyword(line, "move") {
        Some(Word::Translate)
    } else if is_keyword(line, "rotate") {
        Some(Word::Rotate)
    } else if is_keyword(line, "apply") {
        Some(Word::Apply)
    } else if is_keyword(line, "display") {
        Some(Word::Display)
    } else if is_keyword(line, "save") {
        Some(Word::Save)
    } else if is_keyword(line, "quit") {
        Some(Word::Quit)
    } else if is_keyword(line, "circle") {
        Some(Word::Circle)
    } else if is_keyword(line, "hermite") {
        Some(Word::Hermite)
    } else if is_keyword(line, "bezier") {
        Some(Word::Bezier)
    } else if is_keyword(line, "clear") {
        Some(Word::Clear)
    } else if is_keyword(line, "box") {
        Some(Word::Prism)
    } else if is_keyword(line, "sphere") {
        Some(Word::Sphere)
    } else if is_keyword(line, "torus") {
        Some(Word::Torus)
    } else if line.len() > 0 && line[0] == 35 {
        Some(Word::Comment)
    } else {
        None
    }
}

/// The end of the word that starts at `pos`.
fn find_word_end(line: &Vec<u8>, pos: usize) -> (e: usize)
    requires
        pos <= line@.len(),
    ensures
        e == word_end(line@, pos as int),
        pos <= e <= line@.len(),
{
    let mut e: usize = pos;
    while e < line.len() && line[e] != 32
        invariant
            pos <= e <= line@.len(),
            word_end(line@, pos as int) == word_end(line@, e as int),
        decreases line@.len() - e,
    {
        e += 1;
    }
    e
}

/// Reads `count` numbers from the line, starting at byte `pos` with word
/// number `index`.
pub fn parse_numbers(line: &Vec<u8>, pos: usize, count: usize, index: usize) -> (r: Result<
    Vec<Fixed>,
    usize,
>)
    requires
        pos <= line@.len(),
        1 <= count,
        index + count <= usize::MAX,
    ensures
        match r {
            Ok(v) => numbers(line@, pos as int, count as nat, index as int) == Ok::<
                Seq<Fixed>,
                int,
            >(v@) && v@.len() == count,
            Err(k) => numbers(line@, pos as int, count as nat, index as int) == Err::<
                Seq<Fixed>,
                int,
            >(k as int),
        },
{
    let ghost goal = numbers(line@, pos as int, count as nat, index as int);
    let mut out: Vec<Fixed> = Vec::new();
    let mut at: usize = pos;
    let mut k: usize = 0;
    assert(goal == after(out@, numbers(line@, at as int, (count - k) as nat, index + k))) by {
        match goal {
            Ok(more) => {
                assert(Seq::<Fixed>::empty() + more =~= more);
            },
            Err(_) => {},
        }
    }
    while k < count
        invariant
            goal == numbers(line@, pos as int, count as nat, index as int),
            k < count || (k == count && goal == Ok::<Seq<Fixed>, int>(out@)),
            index + count <= usize::MAX,
            at <= line@.len(),
            out@.len() == k,
            k < count ==> goal == after(
                out@,
                numbers(line@, at as int, (count - k) as nat, index + k),
            ),
        decreases count - k,
    {
        let e = find_word_end(line, at);
        match parse_number(line, at, e) {
            None => {
                return Err(index + k);
            },
            Some(v) => {
                let ghost found = out@;
                out.push(v);
                if k + 1 == count {
                    if e != line.len() {
                        return Err(index + k + 1);
                    }
                    assert(found + seq![v] =~= out@);
                } else {
                    if e == line.len() {
                        return Err(index + k + 1);
                    }
                    at = e + 1;
                    proof {
                        let next = numbers(
                            line@,
                            at as int,
                            (count - k - 1) as nat,
                            index + k + 1,
                        );
                        match next {
                            Ok(more) => {
                                assert(found + (seq![v] + more) =~= out@ + more);
                            },
                            Err(_) => {},
                        }
                    }
                }
                k += 1;
            },
        }
    }
    Ok(out)
}

/// Reads the argument line of a rotation.
pub fn parse_rotation(line: &Vec<u8>) -> (r: Result<Command, (ErrorKind, usize)>)
    ensures
        match r {
            Ok(c) => rotation(line@) == Ok::<Command, (ErrorKind, int)>(c),
            Err((kind, k)) => rotation(line@) == Err::<Command, (ErrorKind, int)>((kind, k as int)),
        },
{
    let e = find_word_end(line, 0);
    let axis = if e == 1 && line[0] == 120 {
        Axis::X
    } else if e == 1 && line[0] == 121 {
        Axis::Y
    } else if e == 1 && line[0] == 122 {
        Axis::Z
    } else {
        return Err((ErrorKind::InvalidAxis, 0));
    };
    if e == line.len() {
        return Err((ErrorKind::MalformedArgument, 1));
    }
    match parse_numbers(line, e + 1, 1, 1) {
        Ok(v) => Ok(Command::Rotate { axis, theta: v[0] }),
        Err(k) => Err((ErrorKind::MalformedArgument, k)),
    }
}

/// The command of a keyword with numeric arguments.
fn assemble(w: Word, v: &Vec<Fixed>) -> (c: Command)
    requires
        arity(w) >= 1,
        v@.len() == arity(w),
    ensures
        c == build(w, v@),
{
    match w {
        Word::Line => Command::Line { x0: v[0], y0: v[1], z0: v[2], x1: v[3], y1: v[4], z1: v[5] },
        Word::Scale => Command::Scale { sx: v[0], sy: v[1], sz: v[2] },
        Word::Translate => Command::Translate { tx: v[0], ty: v[1], tz: v[2] },
        Word::Circle => Command::Circle { cx: v[0], cy: v[1], cz: v[2], r: v[3] },
        Word::Hermite => Command::Hermite {
            x0: v[0],
            y0: v[1],
            x1: v[2],
            y1: v[3],
            rx0: v[4],
            ry0: v[5],
            rx1: v[6],
            ry1: v[7],
        },
        Word::Bezier => Command::Bezier {
            x0: v[0],
            y0: v[1],
            x1: v[2],
            y1: v[3],
            x2: v[4],
            y2: v[5],
            x3: v[6],
            y3: v[7],
        },
        Word::Prism => Command::Prism {
            x: v[0],
            y: v[1],
            z: v[2],
            width: v[3],
            height: v[4],
            depth: v[5],
        },
        Word::Sphere => Command::Sphere { x: v[0], y: v[1], z: v[2], r: v[3] },
        Word::Torus => Command::Torus { x: v[0], y: v[1], z: v[2], r1: v[3], r2: v[4] },
        _ => Command::Ident,
    }
}

/// How many numbers the argument line of a keyword holds.
fn count_of(w: Word) -> (n: usize)
    ensures
        n == arity(w),
{
    match w {
        Word::Line => 6,
        Word::Scale => 3,
        Word::Translate => 3,
        Word::Circle => 4,
        Word::Hermite => 8,
        Word::Bezier => 8,
        Word::Prism => 6,
        Word::Sphere => 4,
        Word::Torus => 5,
        _ => 0,
    }
}

/// Decodes what stands at line `i` of a script.
pub fn decode_step(lines: &Vec<Vec<u8>>, i: usize) -> (s: Step)
    requires
        i < lines@.len(),
    ensures
        s == step_at(text_of(lines@), i as int),
{
    let ghost text = text_of(lines@);
    let n: usize = lines.len();
    let line = &lines[i];
    assert(line@ == text[i as int]);
    let w = match classify(line) {
        None => {
            return Step::Fail(ScriptError { kind: ErrorKind::UnknownCommand, line: i, field: 0 });
        },
        Some(w) => w,
    };
    match w {
        Word::Comment => Step::Skip(i + 1),
        Word::Quit => Step::Stop,
        Word::Ident => Step::Emit(Command::Ident, i + 1),
        Word::Apply => Step::Emit(Command::Apply, i + 1),
        Word::Display => Step::Emit(Command::Display, i + 1),
        Word::Clear => Step::Emit(Command::Clear, i + 1),
        _ => {
            if i + 1 >= n {
                return Step::Fail(
                    ScriptError { kind: ErrorKind::MalformedArgument, line: i + 1, field: 0 },
                );
            }
            let args = &lines[i + 1];
            assert(args@ == text[i + 1]);
            match w {
                Word::Save => Step::Emit(Command::Save { line: i + 1 }, i + 2),
                Word::Rotate => match parse_rotation(args) {
                    Ok(c) => Step::Emit(c, i + 2),
                    Err((kind, k)) => Step::Fail(ScriptError { kind, line: i + 1, field: k }),
                },
                _ => match parse_numbers(args, 0, count_of(w), 0) {
                    Ok(v) => Step::Emit(assemble(w, &v), i + 2),
                    Err(k) => Step::Fail(
                        ScriptError { kind: ErrorKind::MalformedArgument, line: i + 1, field: k },
                    ),
                },
            }
        },
    }
}

/// Decodes a script, given as its lines without their line ends. The
/// result is the list of its commands up to the first `quit`, or the first
/// error: an unknown keyword, a malformed argument line, or a rotation about
/// something that is no axis.
pub fn parse_script(lines: &Vec<Vec<u8>>) -> (r: Result<Vec<Command>, ScriptError>)
    ensures
        match r {
            Ok(v) => decoded(text_of(lines@)) == Ok::<Seq<Command>, ScriptError>(v@),
            Err(e) => decoded(text_of(lines@)) == Err::<Seq<Command>, ScriptError>(e),
        },
{
    let ghost text = text_of(lines@);
    let ghost goal = decoded(text);
    let n: usize = lines.len();
    let mut out: Vec<Command> = Vec::new();
    let mut i: usize = 0;
    assert(goal == followed_by(out@, decoded_from(text, 0))) by {
        match goal {
            Ok(more) => {
                assert(Seq::<Command>::empty() + more =~= more);
            },
            Err(_) => {},
        }
    }
    while i < n
        invariant
            n == lines@.len(),
            text == text_of(lines@),
            goal == decoded(text),
            goal == followed_by(out@, decoded_from(text, i as int)),
        decreases
                if i <= n {
                    n - i
                } else {
                    0
                },
    {
        let ghost found = out@;
        match decode_step(lines, i) {
            Step::Stop => {
                assert(found + Seq::<Command>::empty() =~= found);
                return Ok(out);
            },
            Step::Fail(e) => {
                return Err(e);
            },
            Step::Skip(next) => {
                i = next;
            },
            Step::Emit(c, next) => {
                out.push(c);
                proof {
                    match decoded_from(text, next as int) {
                        Ok(more) => {
                            assert(found + (seq![c] + more) =~= out@ + more);
                        },
                        Err(_) => {},
                    }
                }
                i = next;
            },
        }
    }
    assert(out@ + Seq::<Command>::empty() =~= out@);
    Ok(out)
}

} // verus!
