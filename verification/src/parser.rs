//! Parser for the VM source language.
//!
//! A source unit is a sequence of text lines.  Each line may carry a trailing
//! `//` comment, which is stripped; lines that are empty or entirely comment
//! after trimming are skipped.  The remaining text is split on whitespace and
//! classified by its first token through a fixed mnemonic table.  Parsing
//! fails rather than producing a partially populated command.

use vstd::prelude::*;

verus! {

/// The kind of a VM command, determined by its mnemonic.
#[derive(PartialEq, Eq, Structural, Debug, Clone, Copy)]
#[allow(non_camel_case_types)]
pub enum CommandType {
    C_ARITHMETIC,
    C_PUSH,
    C_POP,
    C_LABEL,
    C_GOTO,
    C_IF,
    C_FUNCTION,
    C_RETURN,
    C_CALL,
}

/// A lexical violation in a source line.  Any such error is unrecoverable
/// for the unit: the parser does not resynchronize.
#[derive(PartialEq, Eq, Structural, Debug, Clone, Copy)]
pub enum ParseError {
    /// The first token of a line is not a recognized mnemonic.
    UnrecognizedMnemonic,
    /// `push`/`pop`/`function`/`call` lack a segment or name token together
    /// with an index token, or `label`/`goto`/`if-goto` lack a name token.
    MissingOperand,
    /// The index token is not a valid non-negative integer (or does not fit
    /// in a 64-bit signed integer).
    InvalidIndex,
}

/// Whitespace, for trimming and token splitting.
pub open spec fn is_space(c: char) -> bool {
    c == ' ' || c == '\t' || c == '\r' || c == '\n'
}

/// The index at or after `i` where a `//` comment starts, or the line's
/// length where none does.
pub open spec fn first_comment_from(l: Seq<char>, i: int) -> int
    decreases l.len() - i,
    when 0 <= i <= l.len()
{
    if i + 2 > l.len() {
        l.len() as int
    } else if l[i] == '/' && l[i + 1] == '/' {
        i
    } else {
        first_comment_from(l, i + 1)
    }
}

/// Everything from the first `//` to the end of the line is stripped.
pub open spec fn strip_comment(l: Seq<char>) -> Seq<char> {
    l.take(first_comment_from(l, 0))
}

/// The index at or after `i` of the first non-whitespace character, or the
/// length where there is none.
pub open spec fn first_nonspace_from(l: Seq<char>, i: int) -> int
    decreases l.len() - i,
    when 0 <= i <= l.len()
{
    if i >= l.len() {
        l.len() as int
    } else if is_space(l[i]) {
        first_nonspace_from(l, i + 1)
    } else {
        i
    }
}

/// The index just past the last non-whitespace character strictly before
/// `j`, or 0 where there is none.
pub open spec fn last_nonspace_before(l: Seq<char>, j: int) -> int
    decreases j,
    when 0 <= j <= l.len()
{
    if j == 0 {
        0
    } else if is_space(l[j - 1]) {
        last_nonspace_before(l, j - 1)
    } else {
        j
    }
}

/// The line with leading and trailing whitespace removed.
pub open spec fn trim(l: Seq<char>) -> Seq<char> {
    let a = first_nonspace_from(l, 0);
    let b = last_nonspace_before(l, l.len() as int);
    if a <= b {
        l.subrange(a, b)
    } else {
        Seq::empty()
    }
}

/// The command text of a line: the comment stripped, then trimmed.
pub open spec fn clean_line(l: Seq<char>) -> Seq<char> {
    trim(strip_comment(l))
}

/// A line is meaningful when command text remains after cleaning.
pub open spec fn is_meaningful(l: Seq<char>) -> bool {
    clean_line(l).len() > 0
}

/// The index at or after `i` of the first whitespace character, or the
/// length where there is none.
pub open spec fn first_space_from(l: Seq<char>, i: int) -> int
    decreases l.len() - i,
    when 0 <= i <= l.len()
{
    if i >= l.len() {
        l.len() as int
    } else if is_space(l[i]) {
        i
    } else {
        first_space_from(l, i + 1)
    }
}

/// The position found by `first_space_from` lies between `i` and the length.
pub proof fn lemma_first_space_bounds(l: Seq<char>, i: int)
    requires
        0 <= i <= l.len(),
    ensures
        i <= first_space_from(l, i) <= l.len(),
    decreases l.len() - i,
{
    if i < l.len() && !is_space(l[i]) {
        lemma_first_space_bounds(l, i + 1);
    }
}

/// The whitespace-separated tokens of the line from position `i` on.
pub open spec fn spec_tokens_from(l: Seq<char>, i: int) -> Seq<Seq<char>>
    decreases l.len() - i,
    when 0 <= i <= l.len()
{
    if i >= l.len() {
        Seq::empty()
    } else if is_space(l[i]) {
        spec_tokens_from(l, i + 1)
    } else {
        proof {
            lemma_first_space_bounds(l, i + 1);
        }
        seq![l.subrange(i, first_space_from(l, i + 1))] + spec_tokens_from(
            l,
            first_space_from(l, i + 1),
        )
    }
}

/// The whitespace-separated tokens of a line.
pub open spec fn spec_tokens(l: Seq<char>) -> Seq<Seq<char>> {
    spec_tokens_from(l, 0)
}

/// The nine arithmetic-logical mnemonics.
pub open spec fn is_arith_mnemonic(t: Seq<char>) -> bool {
    t == "add"@ || t == "sub"@ || t == "neg"@ || t == "eq"@ || t == "gt"@ || t == "lt"@
        || t == "and"@ || t == "or"@ || t == "not"@
}

/// The fixed mnemonic table: the first token of a command determines its
/// kind.
pub open spec fn spec_command_type(t: Seq<char>) -> Option<CommandType> {
    if is_arith_mnemonic(t) {
        Some(CommandType::C_ARITHMETIC)
    } else if t == "push"@ {
        Some(CommandType::C_PUSH)
    } else if t == "pop"@ {
        Some(CommandType::C_POP)
    } else if t == "label"@ {
        Some(CommandType::C_LABEL)
    } else if t == "goto"@ {
        Some(CommandType::C_GOTO)
    } else if t == "if-goto"@ {
        Some(CommandType::C_IF)
    } else if t == "function"@ {
        Some(CommandType::C_FUNCTION)
    } else if t == "call"@ {
        Some(CommandType::C_CALL)
    } else if t == "return"@ {
        Some(CommandType::C_RETURN)
    } else {
        None
    }
}

/// A decimal digit.
pub open spec fn is_digit(c: char) -> bool {
    c == '0' || c == '1' || c == '2' || c == '3' || c == '4' || c == '5' || c == '6' || c == '7'
        || c == '8' || c == '9'
}

/// The value of a decimal digit.
pub open spec fn digit_val(c: char) -> nat {
    if c == '0' {
        0
    } else if c == '1' {
        1
    } else if c == '2' {
        2
    } else if c == '3' {
        3
    } else if c == '4' {
        4
    } else if c == '5' {
        5
    } else if c == '6' {
        6
    } else if c == '7' {
        7
    } else if c == '8' {
        8
    } else {
        9
    }
}

/// A non-empty, all-digit token: a valid non-negative integer.
pub open spec fn all_digits(t: Seq<char>) -> bool {
    t.len() > 0 && forall|j: int| 0 <= j < t.len() ==> is_digit(t[j])
}

/// The numeric value of a digit token.
pub open spec fn dec_val(t: Seq<char>) -> nat
    decreases t.len(),
{
    if t.len() == 0 {
        0
    } else {
        dec_val(t.drop_last()) * 10 + digit_val(t.last())
    }
}

/// A parsed command: its kind and exactly the operands the kind requires.
pub struct SpecCmd {
    pub ty: CommandType,
    pub arg1: Option<Seq<char>>,
    pub arg2: Option<i64>,
}

/// Parses the command text of one cleaned, meaningful line.
pub open spec fn spec_parse(l: Seq<char>) -> Result<SpecCmd, ParseError> {
    let ts = spec_tokens(l);
    if ts.len() == 0 {
        Err(ParseError::UnrecognizedMnemonic)
    } else {
        match spec_command_type(ts[0]) {
            Option::None => Err(ParseError::UnrecognizedMnemonic),
            Option::Some(ty) => match ty {
                CommandType::C_ARITHMETIC => Ok(
                    SpecCmd { ty, arg1: Some(ts[0]), arg2: Option::None },
                ),
                CommandType::C_PUSH | CommandType::C_POP | CommandType::C_FUNCTION
                | CommandType::C_CALL => {
                    if ts.len() < 3 {
                        Err(ParseError::MissingOperand)
                    } else if !(all_digits(ts[2]) && dec_val(ts[2]) <= i64::MAX) {
                        Err(ParseError::InvalidIndex)
                    } else {
                        Ok(SpecCmd { ty, arg1: Some(ts[1]), arg2: Some(dec_val(ts[2]) as i64) })
                    }
                },
                CommandType::C_LABEL | CommandType::C_GOTO | CommandType::C_IF => {
                    if ts.len() < 2 {
                        Err(ParseError::MissingOperand)
                    } else {
                        Ok(SpecCmd { ty, arg1: Some(ts[1]), arg2: Option::None })
                    }
                },
                CommandType::C_RETURN => Ok(
                    SpecCmd { ty, arg1: Option::None, arg2: Option::None },
                ),
            },
        }
    }
}

/// The views of a sequence of strings.
pub open spec fn strs_view(v: Seq<String>) -> Seq<Seq<char>> {
    v.map_values(|s: String| s@)
}

/// The view of an optionally present string.
pub open spec fn opt_str_view(o: Option<String>) -> Option<Seq<char>> {
    match o {
        Option::Some(s) => Some(s@),
        Option::None => Option::None,
    }
}

/// Whether two string slices hold the same characters.
pub fn str_eq(a: &str, b: &str) -> (r: bool)
    ensures
        r <==> a@ == b@,
{
    let na = a.unicode_len();
    let nb = b.unicode_len();
    if na != nb {
        return false;
    }
    let mut i: usize = 0;
    while i < na
        invariant
            0 <= i <= na,
            na == a@.len(),
            nb == b@.len(),
            na == nb,
            forall|j: int| 0 <= j < i ==> a@[j] == b@[j],
        decreases na - i,
    {
        if a.get_char(i) != b.get_char(i) {
            return false;
        }
        i = i + 1;
    }
    proof {
        assert(a@ =~= b@);
    }
    true
}

/// The index at or after `i` of the first meaningful line, or the number of
/// lines where none remains.
pub open spec fn first_meaningful_from(lines: Seq<Seq<char>>, i: int) -> int
    decreases lines.len() - i,
    when 0 <= i <= lines.len()
{
    if i >= lines.len() {
        lines.len() as int
    } else if is_meaningful(lines[i]) {
        i
    } else {
        first_meaningful_from(lines, i + 1)
    }
}

fn find_comment(l: &str) -> (c: usize)
    ensures
        c <= l@.len(),
        c as int == first_comment_from(l@, 0),
{
    let n = l.unicode_len();
    if n < 2 {
        return n;
    }
    let mut i: usize = 0;
    while i < n - 1
        invariant
            n == l@.len(),
            2 <= n,
            0 <= i <= n,
            first_comment_from(l@, 0) == first_comment_from(l@, i as int),
        decreases n - i,
    {
        if l.get_char(i) == '/' && l.get_char(i + 1) == '/' {
            return i;
        }
        i = i + 1;
    }
    n
}

fn find_first_nonspace(l: &str) -> (a: usize)
    ensures
        a <= l@.len(),
        a as int == first_nonspace_from(l@, 0),
{
    let n = l.unicode_len();
    let mut i: usize = 0;
    while i < n
        invariant
            n == l@.len(),
            0 <= i <= n,
            first_nonspace_from(l@, 0) == first_nonspace_from(l@, i as int),
        decreases n - i,
    {
        let c = l.get_char(i);
        if !(c == ' ' || c == '\t' || c == '\r' || c == '\n') {
            return i;
        }
        i = i + 1;
    }
    n
}

fn find_trim_end(l: &str) -> (b: usize)
    ensures
        b <= l@.len(),
        b as int == last_nonspace_before(l@, l@.len() as int),
{
    let n = l.unicode_len();
    let mut j: usize = n;
    while j > 0
        invariant
            n == l@.len(),
            0 <= j <= n,
            last_nonspace_before(l@, n as int) == last_nonspace_before(l@, j as int),
        decreases j,
    {
        let c = l.get_char(j - 1);
        if !(c == ' ' || c == '\t' || c == '\r' || c == '\n') {
            return j;
        }
        j = j - 1;
    }
    0
}

/// The command text of a line, as executable code: the comment stripped,
/// then trimmed.
pub fn clean_line_exec(l: &str) -> (r: String)
    ensures
        r@ == clean_line(l@),
{
    let c = find_comment(l);
    let stripped_ref = l.substring_char(0, c);
    assert(stripped_ref@ =~= strip_comment(l@));
    let a = find_first_nonspace(stripped_ref);
    let b = find_trim_end(stripped_ref);
    if a < b {
        let r = stripped_ref.substring_char(a, b).to_owned();
        assert(r@ == clean_line(l@));
        r
    } else {
        let r = String::new();
        proof {
            // a >= b: either the whole stripped text is whitespace (a at the
            // length, b at 0) or the text is empty; the trim is empty.
            if first_nonspace_from(stripped_ref@, 0) <= last_nonspace_before(
                stripped_ref@,
                stripped_ref@.len() as int,
            ) {
                assert(stripped_ref@.subrange(a as int, b as int) =~= Seq::<char>::empty());
            }
        }
        r
    }
}

/// Whether a line still holds command text after cleaning.
pub fn line_meaningful(l: &str) -> (r: bool)
    ensures
        r == is_meaningful(l@),
{
    let cleaned = clean_line_exec(l);
    cleaned.as_str().unicode_len() > 0
}

fn find_space_from(l: &str, start: usize) -> (e: usize)
    requires
        start <= l@.len(),
    ensures
        start <= e <= l@.len(),
        e as int == first_space_from(l@, start as int),
{
    let n = l.unicode_len();
    let mut j: usize = start;
    while j < n
        invariant
            n == l@.len(),
            start <= j <= n,
            first_space_from(l@, start as int) == first_space_from(l@, j as int),
        decreases n - j,
    {
        let c = l.get_char(j);
        if c == ' ' || c == '\t' || c == '\r' || c == '\n' {
            return j;
        }
        j = j + 1;
    }
    n
}

/// Splits command text into its whitespace-separated tokens.
pub fn tokenize(l: &str) -> (toks: Vec<String>)
    ensures
        strs_view(toks@) == spec_tokens(l@),
{
    let n = l.unicode_len();
    let mut toks: Vec<String> = Vec::new();
    let mut i: usize = 0;
    while i < n
        invariant
            n == l@.len(),
            0 <= i <= n,
            spec_tokens(l@) == strs_view(toks@) + spec_tokens_from(l@, i as int),
        decreases n - i,
    {
        let ch = l.get_char(i);
        if ch == ' ' || ch == '\t' || ch == '\r' || ch == '\n' {
            i = i + 1;
            proof {
                assert(spec_tokens(l@) == strs_view(toks@) + spec_tokens_from(l@, i as int));
            }
        } else {
            let j = find_space_from(l, i + 1);
            assert(j as int == first_space_from(l@, i + 1));
            let tok = l.substring_char(i, j).to_owned();
            proof {
                lemma_first_space_bounds(l@, i + 1);
                assert(spec_tokens_from(l@, i as int) == seq![l@.subrange(i as int, j as int)]
                    + spec_tokens_from(l@, j as int));
            }
            toks.push(tok);
            proof {
                assert(strs_view(toks@) =~= strs_view(toks@.drop_last()).push(tok@));
                assert(strs_view(toks@.drop_last()) + (seq![l@.subrange(i as int, j as int)]
                    + spec_tokens_from(l@, j as int)) =~= strs_view(toks@) + spec_tokens_from(
                    l@,
                    j as int,
                ));
            }
            i = j;
        }
    }
    proof {
        assert(strs_view(toks@) + spec_tokens_from(l@, n as int) =~= strs_view(toks@));
    }
    toks
}

/// The value of a digit token never shrinks as the token is extended.
proof fn lemma_dec_val_prefix(t: Seq<char>, i: int)
    requires
        0 <= i <= t.len(),
    ensures
        dec_val(t) >= dec_val(t.take(i)),
    decreases t.len() - i,
{
    if i < t.len() {
        assert(t.take(i + 1).drop_last() =~= t.take(i));
        assert(dec_val(t.take(i + 1)) == dec_val(t.take(i)) * 10 + digit_val(t.take(i + 1).last()));
        lemma_dec_val_prefix(t, i + 1);
    } else {
        assert(t.take(i) =~= t);
    }
}

/// Parses a non-negative integer token.  Rejects tokens that are not all
/// digits and values above `i64::MAX`.
pub fn parse_index(t: &str) -> (r: Option<i64>)
    ensures
        match r {
            Some(v) => all_digits(t@) && 0 <= v && v as nat == dec_val(t@) && dec_val(t@)
                <= i64::MAX,
            Option::None => !(all_digits(t@) && dec_val(t@) <= i64::MAX),
        },
{
    let n = t.unicode_len();
    if n == 0 {
        return Option::None;
    }
    let mut acc: i64 = 0;
    let mut i: usize = 0;
    while i < n
        invariant
            n == t@.len(),
            0 < n,
            0 <= i <= n,
            forall|j: int| 0 <= j < i ==> is_digit(t@[j]),
            0 <= acc,
            acc as nat == dec_val(t@.take(i as int)),
        decreases n - i,
    {
        let c = t.get_char(i);
        let d: i64 = if c == '0' {
            0
        } else if c == '1' {
            1
        } else if c == '2' {
            2
        } else if c == '3' {
            3
        } else if c == '4' {
            4
        } else if c == '5' {
            5
        } else if c == '6' {
            6
        } else if c == '7' {
            7
        } else if c == '8' {
            8
        } else if c == '9' {
            9
        } else {
            return Option::None;
        };
        assert(is_digit(t@[i as int]) && d as nat == digit_val(t@[i as int]));
        proof {
            assert(t@.take(i + 1).drop_last() =~= t@.take(i as int));
            assert(t@.take(i + 1).last() == t@[i as int]);
        }
        if acc > (i64::MAX - d) / 10 {
            proof {
                lemma_dec_val_prefix(t@, i + 1);
                assert(dec_val(t@.take(i + 1)) == acc * 10 + d);
            }
            return Option::None;
        }
        acc = acc * 10 + d;
        i = i + 1;
    }
    proof {
        assert(t@.take(n as int) =~= t@);
    }
    Some(acc)
}

/// Bounds and characterization of `first_meaningful_from`: every line
/// before the found position is skippable, and the found line (when within
/// bounds) is meaningful.
pub proof fn lemma_first_meaningful_props(lines: Seq<Seq<char>>, i: int)
    requires
        0 <= i <= lines.len(),
    ensures
        i <= first_meaningful_from(lines, i) <= lines.len(),
        forall|j: int|
            i <= j < first_meaningful_from(lines, i) ==> !is_meaningful(lines[j]),
        first_meaningful_from(lines, i) < lines.len() ==> is_meaningful(
            lines[first_meaningful_from(lines, i)],
        ),
    decreases lines.len() - i,
{
    if i < lines.len() && !is_meaningful(lines[i]) {
        lemma_first_meaningful_props(lines, i + 1);
    }
}

fn command_type_of(t: &str) -> (r: Option<CommandType>)
    ensures
        r == spec_command_type(t@),
{
    if str_eq(t, "add") || str_eq(t, "sub") || str_eq(t, "neg") || str_eq(t, "eq") || str_eq(
        t,
        "gt",
    ) || str_eq(t, "lt") || str_eq(t, "and") || str_eq(t, "or") || str_eq(t, "not") {
        Some(CommandType::C_ARITHMETIC)
    } else if str_eq(t, "push") {
        Some(CommandType::C_PUSH)
    } else if str_eq(t, "pop") {
        Some(CommandType::C_POP)
    } else if str_eq(t, "label") {
        Some(CommandType::C_LABEL)
    } else if str_eq(t, "goto") {
        Some(CommandType::C_GOTO)
    } else if str_eq(t, "if-goto") {
        Some(CommandType::C_IF)
    } else if str_eq(t, "function") {
        Some(CommandType::C_FUNCTION)
    } else if str_eq(t, "call") {
        Some(CommandType::C_CALL)
    } else if str_eq(t, "return") {
        Some(CommandType::C_RETURN)
    } else {
        Option::None
    }
}

/// A forward-only cursor over one source unit's lines, handing out one
/// typed command at a time.
pub struct Parser {
    lines: Vec<String>,
    pos: usize,
    curr_command: Option<String>,
    cmd_type: Option<CommandType>,
    arg1: Option<String>,
    arg2: Option<i64>,
}

impl Parser {
    /// The unit's lines.
    pub closed spec fn lines_v(&self) -> Seq<Seq<char>> {
        strs_view(self.lines@)
    }

    /// The cursor: the index of the next line to consume.
    pub closed spec fn pos_v(&self) -> int {
        self.pos as int
    }

    /// The cursor never passes the end of the unit.
    pub closed spec fn wf(&self) -> bool {
        self.pos <= self.lines@.len()
    }

    /// The kind of the current command, where one is loaded.
    pub closed spec fn cur_type(&self) -> Option<CommandType> {
        self.cmd_type
    }

    /// The first argument of the current command, where its kind has one.
    pub closed spec fn cur_arg1(&self) -> Option<Seq<char>> {
        opt_str_view(self.arg1)
    }

    /// The index argument of the current command, where its kind has one.
    pub closed spec fn cur_arg2(&self) -> Option<i64> {
        self.arg2
    }

    /// The cleaned text of the current command.
    pub closed spec fn cur_text(&self) -> Option<Seq<char>> {
        opt_str_view(self.curr_command)
    }

    /// A fresh parser over one unit's lines, with no command loaded.
    pub fn new(lines: Vec<String>) -> (p: Parser)
        ensures
            p.wf(),
            p.lines_v() == strs_view(lines@),
            p.pos_v() == 0,
            p.cur_type() is None,
            p.cur_arg1() is None,
            p.cur_arg2() is None,
            p.cur_text() is None,
    {
        Parser {
            lines,
            pos: 0,
            curr_command: Option::None,
            cmd_type: Option::None,
            arg1: Option::None,
            arg2: Option::None,
        }
    }

    /// True iff at least one meaningful line remains at or after the cursor.
    pub fn has_next_cmd(&self) -> (r: bool)
        requires
            self.wf(),
        ensures
            r <==> first_meaningful_from(self.lines_v(), self.pos_v()) < self.lines_v().len(),
            r <==> exists|j: int|
                self.pos_v() <= j < self.lines_v().len() && is_meaningful(self.lines_v()[j]),
    {
        proof {
            lemma_first_meaningful_props(self.lines_v(), self.pos_v());
        }
        let n = self.lines.len();
        let mut j: usize = self.pos;
        while j < n
            invariant
                self.wf(),
                n == self.lines@.len(),
                self.pos <= j <= n,
                first_meaningful_from(self.lines_v(), self.pos_v()) == first_meaningful_from(
                    self.lines_v(),
                    j as int,
                ),
            decreases n - j,
        {
            if line_meaningful(self.lines[j].as_str()) {
                proof {
                    lemma_first_meaningful_props(self.lines_v(), self.pos_v());
                }
                return true;
            }
            j = j + 1;
        }
        false
    }

    /// Consumes input until the next meaningful line and parses it into the
    /// current command.  Where no meaningful line remains, clears the
    /// current command.  Fails with the line's lexical violation, clearing
    /// the current command, where the line does not parse.
    pub fn advance(&mut self) -> (r: Result<(), ParseError>)
        requires
            old(self).wf(),
        ensures
            final(self).wf(),
            final(self).lines_v() == old(self).lines_v(),
            ({
                let lv = old(self).lines_v();
                let k = first_meaningful_from(lv, old(self).pos_v());
                if k >= lv.len() {
                    &&& final(self).pos_v() == lv.len()
                    &&& final(self).cur_type() is None
                    &&& final(self).cur_arg1() is None
                    &&& final(self).cur_arg2() is None
                    &&& final(self).cur_text() is None
                    &&& r is Ok
                } else {
                    &&& final(self).pos_v() == k + 1
                    &&& match spec_parse(clean_line(lv[k])) {
                        Ok(c) => {
                            &&& r is Ok
                            &&& final(self).cur_type() == Some(c.ty)
                            &&& final(self).cur_arg1() == c.arg1
                            &&& final(self).cur_arg2() == c.arg2
                            &&& final(self).cur_text() == Some(clean_line(lv[k]))
                        },
                        Err(e) => {
                            &&& r == Result::<(), ParseError>::Err(e)
                            &&& final(self).cur_type() is None
                            &&& final(self).cur_arg1() is None
                            &&& final(self).cur_arg2() is None
                        },
                    }
                }
            }),
    {
        proof {
            lemma_first_meaningful_props(old(self).lines_v(), old(self).pos_v());
        }
        let n = self.lines.len();
        while self.pos < n
            invariant
                n == self.lines@.len(),
                self.lines@ == old(self).lines@,
                old(self).pos <= self.pos <= n,
                self.curr_command == old(self).curr_command,
                self.cmd_type == old(self).cmd_type,
                self.arg1 == old(self).arg1,
                self.arg2 == old(self).arg2,
                first_meaningful_from(self.lines_v(), old(self).pos_v()) == first_meaningful_from(
                    self.lines_v(),
                    self.pos_v(),
                ),
            decreases n - self.pos,
        {
            let cleaned = clean_line_exec(self.lines[self.pos].as_str());
            if cleaned.as_str().unicode_len() > 0 {
                let ghost k = first_meaningful_from(old(self).lines_v(), old(self).pos_v());
                proof {
                    assert(k == self.pos_v());
                }
                self.pos = self.pos + 1;
                let toks = tokenize(cleaned.as_str());
                if toks.len() == 0 {
                    self.curr_command = Option::None;
                    self.cmd_type = Option::None;
                    self.arg1 = Option::None;
                    self.arg2 = Option::None;
                    return Err(ParseError::UnrecognizedMnemonic);
                }
                let ty_opt = command_type_of(toks[0].as_str());
                let ty = match ty_opt {
                    Some(ty) => ty,
                    Option::None => {
                        self.curr_command = Option::None;
                        self.cmd_type = Option::None;
                        self.arg1 = Option::None;
                        self.arg2 = Option::None;
                        return Err(ParseError::UnrecognizedMnemonic);
                    },
                };
                match ty {
                    CommandType::C_ARITHMETIC => {
                        self.arg1 = Some(toks[0].clone());
                        self.arg2 = Option::None;
                    },
                    CommandType::C_PUSH | CommandType::C_POP | CommandType::C_FUNCTION
                    | CommandType::C_CALL => {
                        if toks.len() < 3 {
                            self.curr_command = Option::None;
                            self.cmd_type = Option::None;
                            self.arg1 = Option::None;
                            self.arg2 = Option::None;
                            return Err(ParseError::MissingOperand);
                        }
                        match parse_index(toks[2].as_str()) {
                            Some(v) => {
                                self.arg1 = Some(toks[1].clone());
                                self.arg2 = Some(v);
                            },
                            Option::None => {
                                self.curr_command = Option::None;
                                self.cmd_type = Option::None;
                                self.arg1 = Option::None;
                                self.arg2 = Option::None;
                                return Err(ParseError::InvalidIndex);
                            },
                        }
                    },
                    CommandType::C_LABEL | CommandType::C_GOTO | CommandType::C_IF => {
                        if toks.len() < 2 {
                            self.curr_command = Option::None;
                            self.cmd_type = Option::None;
                            self.arg1 = Option::None;
                            self.arg2 = Option::None;
                            return Err(ParseError::MissingOperand);
                        }
                        self.arg1 = Some(toks[1].clone());
                        self.arg2 = Option::None;
                    },
                    CommandType::C_RETURN => {
                        self.arg1 = Option::None;
                        self.arg2 = Option::None;
                    },
                }
                self.cmd_type = Some(ty);
                self.curr_command = Some(cleaned);
                return Ok(());
            }
            self.pos = self.pos + 1;
        }
        self.curr_command = Option::None;
        self.cmd_type = Option::None;
        self.arg1 = Option::None;
        self.arg2 = Option::None;
        Ok(())
    }

    /// The kind of the current command.
    pub fn get_command_type(&self) -> (r: &CommandType)
        requires
            self.cur_type() is Some,
        ensures
            Some(*r) == self.cur_type(),
    {
        self.cmd_type.as_ref().unwrap()
    }

    /// The first argument of the current command: the mnemonic itself for an
    /// arithmetic command, the segment for `push`/`pop`, the name for
    /// branching, `function` and `call` commands.
    pub fn get_arg_1(&self) -> (r: &String)
        requires
            self.cur_arg1() is Some,
        ensures
            Some(r@) == self.cur_arg1(),
    {
        self.arg1.as_ref().unwrap()
    }

    /// The index argument of the current command (`push`/`pop` index,
    /// `function` locals count, `call` argument count).
    pub fn get_arg_2(&self) -> (r: i64)
        requires
            self.cur_arg2() is Some,
        ensures
            Some(r) == self.cur_arg2(),
    {
        self.arg2.unwrap()
    }
}

} // verus!
