//! The split file: a version line followed by the body of the record.
//!
//! A file of the current format starts with the line `version 2`. A file
//! whose first line does not end in a version number is of the oldest
//! format, and its first line is part of the body.
use vstd::prelude::*;
use vstd::slice::slice_subrange;
use crate::timer::run::{Run, RunView};

verus! {

/// The line feed.
pub const LF: u8 = 10;

/// The carriage return.
pub const CR: u8 = 13;

/// The space.
pub const SPACE: u8 = 32;

/// The plus sign.
pub const PLUS: u8 = 43;

/// The digit zero.
pub const ZERO: u8 = 48;

/// The digit nine.
pub const NINE: u8 = 57;

/// The version that files are written in.
pub const CURRENT_VERSION: u32 = 2;

/// Index of the first line feed of `s` at or after `from`, or the length of
/// `s` when there is none.
pub open spec fn line_end(s: Seq<u8>, from: int) -> int
    decreases s.len() - from,
{
    if from >= s.len() {
        s.len() as int
    } else if s[from] == LF {
        from
    } else {
        line_end(s, from + 1)
    }
}

/// The first line of `s`: what precedes the first line feed, less a
/// carriage return directly before that line feed.
pub open spec fn first_line(s: Seq<u8>) -> Seq<u8> {
    let end = line_end(s, 0);
    if end < s.len() && end > 0 && s[end - 1] == CR {
        s.subrange(0, end - 1)
    } else {
        s.subrange(0, end)
    }
}

/// What follows the first line of `s` and its line feed.
pub open spec fn after_first_line(s: Seq<u8>) -> Seq<u8> {
    let end = line_end(s, 0);
    if end < s.len() {
        s.subrange(end + 1, s.len() as int)
    } else {
        Seq::empty()
    }
}

/// `s` without the carriage returns that stand directly before a line
/// feed.
pub open spec fn unix_lines(s: Seq<u8>) -> Seq<u8>
    decreases s.len(),
{
    if s.len() == 0 {
        Seq::empty()
    } else if s.last() == LF && s.len() >= 2 && s[s.len() - 2] == CR {
        unix_lines(s.drop_last()).drop_last().push(LF)
    } else {
        unix_lines(s.drop_last()).push(s.last())
    }
}

/// The lines of `s`, each ended by a single line feed: carriage returns
/// before line feeds are dropped and a last line without a line feed gets
/// one.
pub open spec fn relined(s: Seq<u8>) -> Seq<u8> {
    if s.len() > 0 && s.last() != LF {
        unix_lines(s).push(LF)
    } else {
        unix_lines(s)
    }
}

/// Index of the last space of `s`, or -1 when there is none.
pub open spec fn last_space(s: Seq<u8>) -> int
    decreases s.len(),
{
    if s.len() == 0 {
        -1
    } else if s.last() == SPACE {
        s.len() - 1
    } else {
        last_space(s.drop_last())
    }
}

/// Whether `b` is a decimal digit.
pub open spec fn is_digit(b: u8) -> bool {
    ZERO <= b <= NINE
}

/// Whether `s` consists of decimal digits, at least one.
pub open spec fn is_number(s: Seq<u8>) -> bool {
    s.len() > 0 && forall|i: int| 0 <= i < s.len() ==> is_digit(#[trigger] s[i])
}

/// The value of the decimal digits `s`.
pub open spec fn digits_value(s: Seq<u8>) -> nat
    decreases s.len(),
{
    if s.len() == 0 {
        0
    } else {
        digits_value(s.drop_last()) * 10 + (s.last() - ZERO) as nat
    }
}

/// The word `s` without a leading plus sign.
pub open spec fn unsigned_part(s: Seq<u8>) -> Seq<u8> {
    if s.len() > 0 && s[0] == PLUS {
        s.skip(1)
    } else {
        s
    }
}

/// The version that the word `s` stands for: the value of an optional
/// plus sign followed by decimal digits, where that value fits 32 bits;
/// zero for anything else.
pub open spec fn word_version(s: Seq<u8>) -> u32 {
    let digits = unsigned_part(s);
    if is_number(digits) && digits_value(digits) <= u32::MAX {
        digits_value(digits) as u32
    } else {
        0
    }
}

/// The version that a first line declares: that of the word after its
/// last space, and zero when the line has no space.
pub open spec fn line_version(line: Seq<u8>) -> u32 {
    let space = last_space(line);
    if space < 0 {
        0
    } else {
        word_version(line.skip(space + 1))
    }
}

/// The version of the file `s`.
pub open spec fn document_version(s: Seq<u8>) -> u32 {
    line_version(first_line(s))
}

/// The body of the file `s`: the lines after the first one, each ended by
/// a line feed; in a file of version zero the first line, as it stands,
/// comes before them.
pub open spec fn document_data(s: Seq<u8>) -> Seq<u8> {
    if document_version(s) == 0 {
        first_line(s) + relined(after_first_line(s))
    } else {
        relined(after_first_line(s))
    }
}

/// The first line of a file of the current version, with its line feed.
pub open spec fn current_header() -> Seq<u8> {
    seq![118u8, 101u8, 114u8, 115u8, 105u8, 111u8, 110u8, 32u8, 50u8, 10u8]
}

/// The digits of a longer number are worth at least as much as those of
/// any of its prefixes.
pub proof fn lemma_digits_value_grows(s: Seq<u8>, k: int)
    requires
        0 <= k <= s.len(),
        forall|i: int| 0 <= i < s.len() ==> is_digit(#[trigger] s[i]),
    ensures
        digits_value(s.take(k)) <= digits_value(s),
    decreases s.len() - k,
{
    if k == s.len() {
        assert(s.take(k) =~= s);
    } else {
        lemma_digits_value_grows(s, k + 1);
        assert(s.take(k + 1).drop_last() =~= s.take(k));
    }
}

/// What went wrong in reading a split file.
#[derive(Clone, Copy, PartialEq, Eq, Debug, Structural)]
pub enum MsfError {
    /// The file holds nothing, not even a first line.
    Empty,
}

impl MsfError {
    /// The message shown to the user.
    pub fn message(&self) -> (text: String)
        ensures
            text@ == "Input was empty."@,
    {
        "Input was empty.".to_owned()
    }
}

/// The three generations of the record's schema.
#[derive(Clone, Copy, PartialEq, Eq, Debug, Structural)]
pub enum Schema {
    /// The oldest one, without running averages.
    Legacy,
    /// The first one with running averages; its series may differ in
    /// length.
    V1,
    /// The one that files are written in.
    Current,
}

/// The schema that a file of version `version` is read with: 1 and 2 name
/// their own, every other number the oldest.
pub open spec fn schema_for(version: u32) -> Schema {
    if version == 1 {
        Schema::V1
    } else if version == 2 {
        Schema::Current
    } else {
        Schema::Legacy
    }
}

/// The schema that a file of version `version` is read with.
pub fn schema_of(version: u32) -> (schema: Schema)
    ensures
        schema == schema_for(version),
{
    if version == 1 {
        Schema::V1
    } else if version == CURRENT_VERSION {
        Schema::Current
    } else {
        Schema::Legacy
    }
}

/// A split file taken apart: the version it declares and the body to be
/// decoded under that version's schema.
pub struct MsfDocument {
    /// The declared version; zero when the file declares none.
    pub version: u32,
    /// The body.
    pub data: Vec<u8>,
}

/// Index of the first line feed of `s`, or its length.
fn find_line_end(s: &[u8]) -> (end: usize)
    ensures
        end == line_end(s@, 0),
        end <= s@.len(),
{
    let mut end: usize = 0;
    while end < s.len() && s[end] != LF
        invariant
            end <= s@.len(),
            line_end(s@, 0) == line_end(s@, end as int),
        decreases s@.len() - end,
    {
        end = end + 1;
    }
    end
}

/// Index of the last space of `line`, if it has one.
fn find_last_space(line: &[u8]) -> (space: Option<usize>)
    ensures
        match space {
            Some(p) => p == last_space(line@) && p < line@.len(),
            None => last_space(line@) == -1,
        },
{
    let mut k: usize = line.len();
    proof {
        assert(line@.take(line@.len() as int) =~= line@);
    }
    while k > 0 && line[k - 1] != SPACE
        invariant
            k <= line@.len(),
            last_space(line@) == last_space(line@.take(k as int)),
        decreases k,
    {
        proof {
            assert(line@.take(k as int).drop_last() =~= line@.take(k - 1));
        }
        k = k - 1;
    }
    if k == 0 {
        None
    } else {
        Some(k - 1)
    }
}

/// The version that the word `word` stands for.
fn parse_version(word: &[u8]) -> (version: u32)
    ensures
        version == word_version(word@),
{
    let digits: &[u8] = if word.len() > 0 && word[0] == PLUS {
        slice_subrange(word, 1, word.len())
    } else {
        word
    };
    assert(digits@ =~= unsigned_part(word@));
    if digits.len() == 0 {
        return 0;
    }
    let mut value: u64 = 0;
    let mut i: usize = 0;
    while i < digits.len()
        invariant
            i <= digits@.len(),
            digits@ == unsigned_part(word@),
            forall|j: int| 0 <= j < i ==> is_digit(#[trigger] digits@[j]),
            value as nat == digits_value(digits@.take(i as int)),
            value <= u32::MAX,
        decreases digits@.len() - i,
    {
        let b: u8 = digits[i];
        if b < ZERO || b > NINE {
            assert(!is_digit(digits@[i as int]));
            return 0;
        }
        proof {
            assert(digits@.take(i + 1).drop_last() =~= digits@.take(i as int));
        }
        value = value * 10 + (b - ZERO) as u64;
        i = i + 1;
        if value > u32::MAX as u64 {
            // The digits that follow cannot bring the value back down.
            let mut k: usize = i;
            while k < digits.len()
                invariant
                    k <= digits@.len(),
                    digits@ == unsigned_part(word@),
                    forall|j: int| 0 <= j < k ==> is_digit(#[trigger] digits@[j]),
                decreases digits@.len() - k,
            {
                let c: u8 = digits[k];
                if c < ZERO || c > NINE {
                    assert(!is_digit(digits@[k as int]));
                    return 0;
                }
                k = k + 1;
            }
            proof {
                lemma_digits_value_grows(digits@, i as int);
            }
            return 0;
        }
    }
    proof {
        assert(digits@.take(i as int) =~= digits@);
    }
    value as u32
}

/// The version that the first line `line` declares.
fn parse_line_version(line: &[u8]) -> (version: u32)
    ensures
        version == line_version(line@),
{
    let len: usize = line.len();
    match find_last_space(line) {
        Some(space) => {
            let word = slice_subrange(line, space + 1, len);
            assert(word@ =~= line@.skip(space + 1));
            parse_version(word)
        },
        None => 0,
    }
}

/// Appends to `data` the lines of `rest`, each ended by a single line
/// feed.
fn push_relined(data: &mut Vec<u8>, rest: &[u8])
    ensures
        final(data)@ == old(data)@ + relined(rest@),
{
    let ghost before = data@;
    let mut i: usize = 0;
    while i < rest.len()
        invariant
            i <= rest@.len(),
            data@ == before + unix_lines(rest@.take(i as int)),
            i > 0 && rest@[i - 1] == CR ==> unix_lines(rest@.take(i as int)).len() > 0,
        decreases rest@.len() - i,
    {
        let b: u8 = rest[i];
        proof {
            assert(rest@.take(i + 1).drop_last() =~= rest@.take(i as int));
        }
        if b == LF && i > 0 && rest[i - 1] == CR {
            data.pop();
            data.push(LF);
            assert(data@ =~= before + unix_lines(rest@.take(i + 1)));
        } else {
            data.push(b);
            assert(data@ =~= before + unix_lines(rest@.take(i + 1)));
        }
        i = i + 1;
    }
    proof {
        assert(rest@.take(i as int) =~= rest@);
    }
    if rest.len() > 0 && rest[rest.len() - 1] != LF {
        data.push(LF);
    }
    assert(data@ =~= before + relined(rest@));
}

/// Appends the bytes of `s` to `data`.
fn push_all(data: &mut Vec<u8>, s: &[u8])
    ensures
        final(data)@ == old(data)@ + s@,
{
    let ghost before = data@;
    let mut i: usize = 0;
    while i < s.len()
        invariant
            i <= s@.len(),
            data@ == before + s@.take(i as int),
        decreases s@.len() - i,
    {
        data.push(s[i]);
        assert(data@ =~= before + s@.take(i + 1));
        i = i + 1;
    }
    assert(s@.take(i as int) =~= s@);
}

/// Takes a split file apart into the version that it declares and the
/// body to decode. Only a file that holds nothing is refused.
pub fn read_document(contents: &[u8]) -> (document: Result<MsfDocument, MsfError>)
    ensures
        contents@.len() == 0 <==> document is Err,
        document matches Ok(doc) ==> {
            &&& doc.version == document_version(contents@)
            &&& doc.data@ == document_data(contents@)
        },
        document matches Err(e) ==> e == MsfError::Empty,
{
    let n: usize = contents.len();
    if n == 0 {
        return Err(MsfError::Empty);
    }
    let end: usize = find_line_end(contents);
    let line: &[u8] = if end < n && end > 0 && contents[end - 1] == CR {
        slice_subrange(contents, 0, end - 1)
    } else {
        slice_subrange(contents, 0, end)
    };
    let rest: &[u8] = if end < n {
        slice_subrange(contents, end + 1, n)
    } else {
        slice_subrange(contents, n, n)
    };
    assert(rest@ =~= after_first_line(contents@));
    let version: u32 = parse_line_version(line);
    let mut data: Vec<u8> = Vec::new();
    if version == 0 {
        push_all(&mut data, line);
    }
    push_relined(&mut data, rest);
    assert(data@ =~= document_data(contents@));
    Ok(MsfDocument { version, data })
}

/// Puts the line that declares the current version in front of the
/// encoded record `body`: the contents of the file to write.
pub fn frame_document(body: &[u8]) -> (contents: Vec<u8>)
    ensures
        contents@ == current_header() + body@,
{
    let mut contents: Vec<u8> = Vec::new();
    contents.push(118);
    contents.push(101);
    contents.push(114);
    contents.push(115);
    contents.push(105);
    contents.push(111);
    contents.push(110);
    contents.push(SPACE);
    contents.push(50);
    contents.push(LF);
    assert(contents@ =~= current_header());
    push_all(&mut contents, body);
    contents
}

/// A file as it is written reads back as one of the current version, with
/// nothing but the encoded record, line by line, as its body.
pub proof fn lemma_framed_document_is_current(body: Seq<u8>)
    ensures
        document_version(current_header() + body) == CURRENT_VERSION,
        schema_for(document_version(current_header() + body)) == Schema::Current,
        document_data(current_header() + body) == relined(body),
{
    let s = current_header() + body;
    reveal_with_fuel(line_end, 11);
    assert(line_end(s, 0) == 9);
    let line = first_line(s);
    assert(line =~= seq![118u8, 101u8, 114u8, 115u8, 105u8, 111u8, 110u8, 32u8, 50u8]);
    assert(after_first_line(s) =~= body);
    assert(line.drop_last() =~= seq![118u8, 101u8, 114u8, 115u8, 105u8, 111u8, 110u8, 32u8]);
    assert(last_space(line.drop_last()) == 7);
    assert(last_space(line) == 7);
    let word = line.skip(8);
    assert(word =~= seq![50u8]);
    assert(word.drop_last() =~= Seq::<u8>::empty());
    assert(digits_value(word.drop_last()) == 0);
    assert(digits_value(word) == 2);
    assert(is_number(word));
    assert(word_version(word) == 2);
}

/// Reads and writes the split file at a given path.
pub struct MsfParser {
    filename: String,
}

impl View for MsfParser {
    type V = Seq<char>;

    closed spec fn view(&self) -> Seq<char> {
        self.filename@
    }
}

impl MsfParser {
    /// A parser for the file at `filename`.
    pub fn new(filename: String) -> (parser: MsfParser)
        ensures
            parser@ == filename@,
    {
        MsfParser { filename }
    }

    /// The path of the file.
    pub fn filename(&self) -> (filename: &str)
        ensures
            filename@ == self@,
    {
        self.filename.as_str()
    }
}

/// A record of the oldest schema: it has no running averages.
pub struct LegacyRun {
    /// Free-text title.
    pub game_title: String,
    /// Free-text category.
    pub category: String,
    /// Length of the lead-in, if any.
    pub offset: Option<u128>,
    /// Best total time.
    pub pb: u128,
    /// Segment names.
    pub splits: Vec<String>,
    /// Segment durations of the best attempt.
    pub pb_times: Vec<u128>,
    /// Best segment durations.
    pub gold_times: Vec<u128>,
}

/// A record of the first schema with running averages. Its series may
/// differ in length.
pub struct RunV1 {
    /// Free-text title.
    pub game_title: String,
    /// Free-text category.
    pub category: String,
    /// Length of the lead-in, if any.
    pub offset: Option<u128>,
    /// Best total time.
    pub pb: u128,
    /// Segment names.
    pub splits: Vec<String>,
    /// Segment durations of the best attempt.
    pub pb_times: Vec<u128>,
    /// Best segment durations.
    pub gold_times: Vec<u128>,
    /// Running-average accumulators, `(samples, total)`.
    pub sum_times: Vec<(u128, u128)>,
}

/// The running-average accumulators that stand for `times` when each was
/// observed once.
pub open spec fn single_samples(times: Seq<u128>) -> Seq<(u128, u128)> {
    Seq::new(times.len(), |i: int| (1u128, times[i]))
}

impl LegacyRun {
    /// The record in the current schema. The running average of each
    /// segment starts from one sample, the segment's duration in the best
    /// attempt.
    pub fn into_run(self) -> (run: Run)
        ensures
            run@ == (RunView {
                game_title: self.game_title@,
                category: self.category@,
                offset: self.offset,
                pb: self.pb,
                splits: self.splits.deep_view(),
                pb_times: self.pb_times@,
                gold_times: self.gold_times@,
                sum_times: single_samples(self.pb_times@),
            }),
    {
        let mut sum_times: Vec<(u128, u128)> = Vec::new();
        let mut i: usize = 0;
        while i < self.pb_times.len()
            invariant
                i <= self.pb_times@.len(),
                sum_times@.len() == i,
                forall|j: int| 0 <= j < i ==> sum_times@[j] == (1u128, self.pb_times@[j]),
            decreases self.pb_times@.len() - i,
        {
            sum_times.push((1, self.pb_times[i]));
            i = i + 1;
        }
        assert(sum_times@ =~= single_samples(self.pb_times@));
        Run::new(
            self.game_title,
            self.category,
            self.offset,
            self.pb,
            self.splits,
            self.pb_times,
            self.gold_times,
            sum_times,
        )
    }
}

impl RunV1 {
    /// The record in the current schema, its series as they stand.
    pub fn into_run(self) -> (run: Run)
        ensures
            run@ == (RunView {
                game_title: self.game_title@,
                category: self.category@,
                offset: self.offset,
                pb: self.pb,
                splits: self.splits.deep_view(),
                pb_times: self.pb_times@,
                gold_times: self.gold_times@,
                sum_times: self.sum_times@,
            }),
    {
        Run::new(
            self.game_title,
            self.category,
            self.offset,
            self.pb,
            self.splits,
            self.pb_times,
            self.gold_times,
            self.sum_times,
        )
    }
}

} // verus!
