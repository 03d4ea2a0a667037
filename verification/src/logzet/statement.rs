//! The statements of a journal: what one line of text says.

use crate::logzet::{Command, Date, DateKey, DateKeyView, DateView, TextLine, Time, TimeKey, TimeView};
use crate::text::{
    join, joined, parse_upto, parse_upto_spec, pieces, split, split_whitespace, starts_with,
    texts, tokens,
};
use vstd::prelude::*;
use vstd::std_specs::convert::TryFromSpecImpl;

verus! {

/// Why a line is no statement.
#[derive(Clone, Copy, Debug, PartialEq, Eq, Structural)]
pub enum StatementError {
    ParseError,
}

/// What one line of a journal says.
pub enum Statement {
    Date(Date),
    Time(Time),
    Break,
    TextLine(TextLine),
    PreTextLine(TextLine),
    Command(Command),
}

/// A statement, as mathematical values.
pub enum StatementView {
    Date(DateView),
    Time(TimeView),
    Break,
    TextLine(Seq<char>),
    PreTextLine(Seq<char>),
    Command(Seq<Seq<char>>),
}

impl View for Statement {
    type V = StatementView;

    open spec fn view(&self) -> StatementView {
        match self {
            Statement::Date(d) => StatementView::Date(d@),
            Statement::Time(t) => StatementView::Time(t@),
            Statement::Break => StatementView::Break,
            Statement::TextLine(l) => StatementView::TextLine(l.text@),
            Statement::PreTextLine(l) => StatementView::PreTextLine(l.text@),
            Statement::Command(c) => StatementView::Command(texts(c.args@)),
        }
    }
}

impl Clone for Statement {
    fn clone(&self) -> (r: Statement)
        ensures
            r@ == self@,
    {
        match self {
            Statement::Date(d) => Statement::Date(d.clone()),
            Statement::Time(t) => Statement::Time(t.clone()),
            Statement::Break => Statement::Break,
            Statement::TextLine(l) => Statement::TextLine(l.clone()),
            Statement::PreTextLine(l) => Statement::PreTextLine(l.clone()),
            Statement::Command(c) => Statement::Command(c.clone()),
        }
    }
}

/// The views of a list of statements.
pub open spec fn statements(v: Seq<Statement>) -> Seq<StatementView> {
    Seq::new(v.len(), |i: int| v[i]@)
}

/// The capture groups of the leftmost match of the regular expression
/// `pattern` in `text`, as the `regex` crate finds it. The outer `None`
/// says that the crate refuses the pattern, the inner one that nothing
/// matches. Group 0 is the whole match; a group that took no part in the
/// match is `None`.
pub uninterp spec fn regex_groups(pattern: Seq<char>, text: Seq<char>) -> Option<
    Option<Seq<Option<Seq<char>>>>,
>;

/// The texts of capture groups.
pub open spec fn group_texts(groups: Seq<Option<String>>) -> Seq<Option<Seq<char>>> {
    Seq::new(
        groups.len(),
        |i: int|
            match groups[i] {
                Some(s) => Some(s@),
                None => None,
            },
    )
}

/// The texts of what a search for capture groups gave.
pub open spec fn search_texts(found: Option<Option<Vec<Option<String>>>>) -> Option<
    Option<Seq<Option<Seq<char>>>>,
> {
    match found {
        Some(Some(groups)) => Some(Some(group_texts(groups@))),
        Some(None) => Some(None),
        None => None,
    }
}

/// Compiles `pattern` with `regex::Regex::new` and searches `text` with
/// `Regex::captures`, which gives the capture groups of the leftmost match.
/// The contract only names the result: it is the one that the crate gives
/// for this pattern and this text.
#[verifier::external_body]
fn captures(pattern: &str, text: &str) -> (r: Option<Option<Vec<Option<String>>>>)
    ensures
        search_texts(r) == regex_groups(pattern@, text@),
{
    match regex::Regex::new(pattern) {
        Ok(re) => Some(
            re.captures(text).map(
                |c| c.iter().map(|m| m.map(|x| x.as_str().to_owned())).collect(),
            ),
        ),
        Err(_) => None,
    }
}

/// The pattern of an entry: the at sign, two digits, a colon, two digits,
/// and after white space the title.
pub open spec fn time_pattern() -> Seq<char> {
    "@(\\d\\d):(\\d\\d)(?:\\s+(.*))?"@
}

/// The pattern of a session: the at sign, the year, month and day with
/// hyphens between them, an optional context after a hash sign, and after
/// white space the title.
pub open spec fn date_pattern() -> Seq<char> {
    "@(\\d\\d\\d\\d)-(\\d\\d)-(\\d\\d)(#[a-z]+)?(?:\\s+(.*))?"@
}

/// Whether a word is a tag: it starts with the hash sign.
pub open spec fn is_tag(word: Seq<char>) -> bool {
    word.len() > 0 && word[0] == '#'
}

/// The words among the first `n` of `words` that are no tags.
pub open spec fn plain_words(words: Seq<Seq<char>>, n: int) -> Seq<Seq<char>>
    decreases n,
{
    if n <= 0 {
        Seq::empty()
    } else if is_tag(words[n - 1]) {
        plain_words(words, n - 1)
    } else {
        plain_words(words, n - 1).push(words[n - 1])
    }
}

/// The tags among the first `n` of `words`, without their hash signs.
pub open spec fn tag_words(words: Seq<Seq<char>>, n: int) -> Seq<Seq<char>>
    decreases n,
{
    if n <= 0 {
        Seq::empty()
    } else if is_tag(words[n - 1]) {
        tag_words(words, n - 1).push(words[n - 1].subrange(1, words[n - 1].len() as int))
    } else {
        tag_words(words, n - 1)
    }
}

/// The title in a full title: its words that are no tags, with single
/// spaces between them. The words are what stands between single spaces.
pub open spec fn title_of(full: Seq<char>) -> Seq<char> {
    joined(plain_words(pieces(full, ' '), pieces(full, ' ').len() as int), " "@)
}

/// The tags in a full title, in their order and without their hash signs.
pub open spec fn tags_of(full: Seq<char>) -> Seq<Seq<char>> {
    tag_words(pieces(full, ' '), pieces(full, ' ').len() as int)
}

/// The title and tags of an optional full title.
pub open spec fn heading(full: Option<Seq<char>>) -> (Seq<char>, Seq<Seq<char>>) {
    match full {
        Some(t) => (title_of(t), tags_of(t)),
        None => (Seq::empty(), Seq::empty()),
    }
}

/// The group at `i`, if there is one and it took part in the match.
pub open spec fn group(groups: Seq<Option<Seq<char>>>, i: int) -> Option<Seq<char>> {
    if 0 <= i < groups.len() {
        groups[i]
    } else {
        None
    }
}

/// The number at most `max` that the group at `i` writes.
pub open spec fn group_number(groups: Seq<Option<Seq<char>>>, i: int, max: u32) -> Option<u32> {
    match group(groups, i) {
        Some(s) => parse_upto_spec(s, max),
        None => None,
    }
}

/// The entry that the capture groups of the entry pattern give: hour and
/// minute from the first two groups, title and tags from the third.
pub open spec fn time_of(groups: Seq<Option<Seq<char>>>) -> Result<StatementView, StatementError> {
    match (group_number(groups, 1, 255), group_number(groups, 2, 255)) {
        (Some(hour), Some(minute)) => Ok(
            StatementView::Time(
                TimeView {
                    id: 0,
                    key: TimeKey { hour: hour as u8, minute: minute as u8 },
                    title: heading(group(groups, 3)).0,
                    tags: heading(group(groups, 3)).1,
                },
            ),
        ),
        _ => Err(StatementError::ParseError),
    }
}

/// The context that a group names: what follows its hash sign.
pub open spec fn context_of(g: Option<Seq<char>>) -> Option<Seq<char>> {
    match g {
        Some(c) => if is_tag(c) {
            Some(c.subrange(1, c.len() as int))
        } else {
            None
        },
        None => None,
    }
}

/// The session that the capture groups of the session pattern give: year,
/// month and day from the first three groups, the context from the fourth,
/// title and tags from the fifth.
pub open spec fn date_of(groups: Seq<Option<Seq<char>>>) -> Result<StatementView, StatementError> {
    match (
        group_number(groups, 1, 65535),
        group_number(groups, 2, 255),
        group_number(groups, 3, 255),
    ) {
        (Some(year), Some(month), Some(day)) => Ok(
            StatementView::Date(
                DateView {
                    key: DateKeyView {
                        month: month as u8,
                        day: day as u8,
                        year: year as u16,
                        context: context_of(group(groups, 4)),
                    },
                    title: heading(group(groups, 5)).0,
                    tags: heading(group(groups, 5)).1,
                },
            ),
        ),
        _ => Err(StatementError::ParseError),
    }
}

/// The tokens of a command line but the first.
pub open spec fn arguments(line: Seq<char>) -> Seq<Seq<char>> {
    if tokens(line).len() == 0 {
        Seq::empty()
    } else {
        tokens(line).subrange(1, tokens(line).len() as int)
    }
}

/// What a line that starts with the at sign says, given what the searches
/// for the entry pattern and for the session pattern found in it: an
/// entry if the first matched, else a session if the second matched.
pub open spec fn heading_of(
    as_time: Option<Option<Seq<Option<Seq<char>>>>>,
    as_date: Option<Option<Seq<Option<Seq<char>>>>>,
) -> Result<StatementView, StatementError> {
    match as_time {
        Some(Some(groups)) => time_of(groups),
        Some(None) => match as_date {
            Some(Some(groups)) => date_of(groups),
            _ => Err(StatementError::ParseError),
        },
        None => Err(StatementError::ParseError),
    }
}

/// What a line says: three hyphens at its start make a break, the at sign
/// a heading, the hash sign with an exclamation mark a command, and any
/// other line is text.
pub open spec fn read(line: Seq<char>) -> Result<StatementView, StatementError> {
    if "---"@.is_prefix_of(line) {
        Ok(StatementView::Break)
    } else if "@"@.is_prefix_of(line) {
        heading_of(regex_groups(time_pattern(), line), regex_groups(date_pattern(), line))
    } else if "#!"@.is_prefix_of(line) {
        Ok(StatementView::Command(arguments(line)))
    } else {
        Ok(StatementView::TextLine(line))
    }
}

/// Whether `s` starts with the character `c`.
fn first_is(s: &str, c: char) -> (r: bool)
    ensures
        r == (s@.len() > 0 && s@[0] == c),
{
    s.unicode_len() > 0 && s.get_char(0) == c
}

/// `s` without its first character.
fn behind_first(s: &str) -> (r: String)
    requires
        s@.len() > 0,
    ensures
        r@ == s@.subrange(1, s@.len() as int),
{
    let n: usize = s.unicode_len();
    s.substring_char(1, n).to_owned()
}

/// The title and the tags of a full title.
pub fn title_and_tags(full_title: &str) -> (r: (String, Vec<String>))
    ensures
        r.0@ == title_of(full_title@),
        texts(r.1@) == tags_of(full_title@),
{
    let words = split(full_title, ' ');
    let mut plain: Vec<String> = Vec::new();
    let mut tags: Vec<String> = Vec::new();
    let n: usize = words.len();
    let mut i: usize = 0;
    while i < n
        invariant
            n == words@.len(),
            i <= n,
            texts(plain@) == plain_words(texts(words@), i as int),
            texts(tags@) == tag_words(texts(words@), i as int),
        decreases n - i,
    {
        let w = &words[i];
        assert(texts(words@)[i as int] == w@);
        let ghost plain_before = texts(plain@);
        let ghost tags_before = texts(tags@);
        if first_is(w.as_str(), '#') {
            tags.push(behind_first(w.as_str()));
            assert(texts(tags@) =~= tags_before.push(w@.subrange(1, w@.len() as int)));
        } else {
            plain.push(w.clone());
            assert(texts(plain@) =~= plain_before.push(w@));
        }
        i += 1;
    }
    (join(&plain, " "), tags)
}

/// The title and tags of an optional full title.
fn heading_parts(full: &Option<String>) -> (r: (String, Vec<String>))
    ensures
        (r.0@, texts(r.1@)) == heading(crate::dagzet::text_of(*full)),
{
    match full {
        Some(t) => title_and_tags(t.as_str()),
        None => {
            let tags: Vec<String> = Vec::new();
            assert(texts(tags@) =~= Seq::empty());
            (String::new(), tags)
        },
    }
}

/// The group at `i`, if there is one and it took part in the match.
fn group_at(groups: &Vec<Option<String>>, i: usize) -> (r: Option<String>)
    ensures
        crate::dagzet::text_of(r) == group(group_texts(groups@), i as int),
{
    if i < groups.len() {
        match &groups[i] {
            Some(s) => Some(s.clone()),
            None => None,
        }
    } else {
        None
    }
}

/// The number at most `max` that the group at `i` writes.
fn number_at(groups: &Vec<Option<String>>, i: usize, max: u32) -> (r: Option<u32>)
    ensures
        r == group_number(group_texts(groups@), i as int, max),
{
    match group_at(groups, i) {
        Some(s) => parse_upto(s.as_str(), max),
        None => None,
    }
}

/// The entry that the capture groups of the entry pattern give.
pub fn time_statement(groups: &Vec<Option<String>>) -> (r: Result<Statement, StatementError>)
    ensures
        match time_of(group_texts(groups@)) {
            Ok(s) => r matches Ok(t) && t@ == s,
            Err(e) => r matches Err(f) && f == e,
        },
{
    let hour = match number_at(groups, 1, 255) {
        Some(h) => h as u8,
        None => { return Err(StatementError::ParseError); },
    };
    let minute = match number_at(groups, 2, 255) {
        Some(m) => m as u8,
        None => { return Err(StatementError::ParseError); },
    };
    let (title, tags) = heading_parts(&group_at(groups, 3));
    Ok(Statement::Time(Time { id: 0, key: TimeKey { hour, minute }, title, tags }))
}

/// The session that the capture groups of the session pattern give.
pub fn date_statement(groups: &Vec<Option<String>>) -> (r: Result<Statement, StatementError>)
    ensures
        match date_of(group_texts(groups@)) {
            Ok(s) => r matches Ok(t) && t@ == s,
            Err(e) => r matches Err(f) && f == e,
        },
{
    let year = match number_at(groups, 1, 65535) {
        Some(y) => y as u16,
        None => { return Err(StatementError::ParseError); },
    };
    let month = match number_at(groups, 2, 255) {
        Some(m) => m as u8,
        None => { return Err(StatementError::ParseError); },
    };
    let day = match number_at(groups, 3, 255) {
        Some(d) => d as u8,
        None => { return Err(StatementError::ParseError); },
    };
    let context = match group_at(groups, 4) {
        Some(c) => if first_is(c.as_str(), '#') {
            Some(behind_first(c.as_str()))
        } else {
            None
        },
        None => None,
    };
    let (title, tags) = heading_parts(&group_at(groups, 5));
    Ok(Statement::Date(Date { key: DateKey { month, day, year, context }, title, tags }))
}

/// What a line that starts with the at sign says, given what the two
/// searches found in it.
pub fn heading_statement(
    as_time: &Option<Option<Vec<Option<String>>>>,
    as_date: &Option<Option<Vec<Option<String>>>>,
) -> (r: Result<Statement, StatementError>)
    ensures
        match heading_of(search_texts(*as_time), search_texts(*as_date)) {
            Ok(s) => r matches Ok(t) && t@ == s,
            Err(e) => r matches Err(f) && f == e,
        },
{
    match as_time {
        Some(Some(groups)) => time_statement(groups),
        Some(None) => match as_date {
            Some(Some(groups)) => date_statement(groups),
            _ => Err(StatementError::ParseError),
        },
        None => Err(StatementError::ParseError),
    }
}

impl Statement {
    /// Reads one line.
    pub fn try_from(value: String) -> (r: Result<Statement, StatementError>)
        ensures
            match read(value@) {
                Ok(s) => r matches Ok(t) && t@ == s,
                Err(e) => r matches Err(f) && f == e,
            },
    {
        if starts_with(value.as_str(), "---") {
            return Ok(Statement::Break);
        }
        if starts_with(value.as_str(), "@") {
            let as_time = captures("@(\\d\\d):(\\d\\d)(?:\\s+(.*))?", value.as_str());
            let as_date = captures(
                "@(\\d\\d\\d\\d)-(\\d\\d)-(\\d\\d)(#[a-z]+)?(?:\\s+(.*))?",
                value.as_str(),
            );
            return heading_statement(&as_time, &as_date);
        }
        if starts_with(value.as_str(), "#!") {
            let t = split_whitespace(value.as_str());
            let mut args: Vec<String> = Vec::new();
            let n: usize = t.len();
            let mut i: usize = 1;
            assert(texts(args@) =~= Seq::empty());
            while i < n
                invariant
                    n == t@.len(),
                    1 <= i,
                    i <= n || n == 0,
                    n > 0 ==> texts(args@) == texts(t@).subrange(1, i as int),
                    n == 0 ==> texts(args@) == Seq::<Seq<char>>::empty(),
                decreases n - i,
            {
                let ghost before = texts(args@);
                args.push(t[i].clone());
                assert(texts(args@) =~= before.push(t@[i as int]@));
                assert(texts(t@)[i as int] == t@[i as int]@);
                i += 1;
                assert(texts(args@) =~= texts(t@).subrange(1, i as int));
            }
            assert(n > 0 ==> i == n);
            return Ok(Statement::Command(Command { args }));
        }
        Ok(Statement::TextLine(TextLine { text: value }))
    }
}

impl TryFrom<String> for Statement {
    type Error = StatementError;

    /// Reads one line: the statement that the line says, or the error that
    /// says that it is none.
    fn try_from(value: String) -> (r: Result<Statement, StatementError>)
        ensures
            match read(value@) {
                Ok(s) => r matches Ok(t) && t@ == s,
                Err(e) => r matches Err(f) && f == e,
            },
    {
        Statement::try_from(value)
    }
}

impl TryFromSpecImpl<String> for Statement {
    open spec fn obeys_try_from_spec() -> bool {
        false
    }

    open spec fn try_from_spec(value: String) -> Result<Statement, StatementError> {
        arbitrary()
    }
}

/// Collects the statements of a journal line by line.
pub struct StatementBuilder {
    pub statements: Vec<Statement>,
}

impl Default for StatementBuilder {
    fn default() -> (r: StatementBuilder)
        ensures
            r.statements@.len() == 0,
    {
        StatementBuilder { statements: Vec::new() }
    }
}

impl StatementBuilder {
    /// A builder without statements.
    pub fn new() -> (r: StatementBuilder)
        ensures
            r.statements@.len() == 0,
    {
        StatementBuilder { statements: Vec::new() }
    }

    /// Reads one line. An empty line and a line that is no statement are
    /// passed over; any other adds its statement behind the others.
    pub fn parse(&mut self, line: String)
        ensures
            statements(final(self).statements@) == (if line@.len() == 0 {
                statements(old(self).statements@)
            } else {
                match read(line@) {
                    Ok(s) => statements(old(self).statements@).push(s),
                    Err(_) => statements(old(self).statements@),
                }
            }),
    {
        if line.as_str().unicode_len() == 0 {
            return ;
        }
        match Statement::try_from(line) {
            Ok(stmt) => {
                let ghost before = statements(self.statements@);
                self.statements.push(stmt);
                assert(statements(self.statements@) =~= before.push(stmt@));
            },
            Err(_) => {},
        }
    }

    /// The statements read.
    pub fn build(self) -> (r: Vec<Statement>)
        ensures
            r == self.statements,
    {
        self.statements
    }
}

} // verus!
