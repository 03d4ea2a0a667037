//! A journal of dated sessions, timed entries and blocks of text, read from
//! lines of text.

pub mod entity;
pub mod id;
pub mod rows;
pub mod session;
pub mod session_tree;
pub mod statement;
pub mod tables;

use crate::text::texts;
use vstd::prelude::*;

verus! {

/// The number of an entity in the order of the journal.
pub type EntityId = usize;

/// The day of a session, with an optional context that tells sessions of
/// one day apart.
#[derive(Debug, PartialEq, Eq, PartialOrd, Ord)]
pub struct DateKey {
    pub month: u8,
    pub day: u8,
    pub year: u16,
    pub context: Option<String>,
}

/// A day and context, as mathematical values.
pub struct DateKeyView {
    pub month: u8,
    pub day: u8,
    pub year: u16,
    pub context: Option<Seq<char>>,
}

impl View for DateKey {
    type V = DateKeyView;

    open spec fn view(&self) -> DateKeyView {
        DateKeyView {
            month: self.month,
            day: self.day,
            year: self.year,
            context: match self.context {
                Some(c) => Some(c@),
                None => None,
            },
        }
    }
}

impl Clone for DateKey {
    fn clone(&self) -> (r: DateKey)
        ensures
            r@ == self@,
    {
        DateKey {
            month: self.month,
            day: self.day,
            year: self.year,
            context: match &self.context {
                Some(c) => Some(c.clone()),
                None => None,
            },
        }
    }
}

impl Default for DateKey {
    fn default() -> (r: DateKey)
        ensures
            r@ == (DateKeyView { month: 0, day: 0, year: 0, context: None }),
    {
        DateKey { month: 0, day: 0, year: 0, context: None }
    }
}

/// The time of day of an entry.
#[derive(Clone, Copy, Debug, PartialEq, Eq, PartialOrd, Ord, Structural)]
pub struct TimeKey {
    pub hour: u8,
    pub minute: u8,
}

impl Default for TimeKey {
    fn default() -> (r: TimeKey)
        ensures
            r == (TimeKey { hour: 0, minute: 0 }),
    {
        TimeKey { hour: 0, minute: 0 }
    }
}

/// The head of a session: its day, title and tags.
pub struct Date {
    pub key: DateKey,
    pub title: String,
    pub tags: Vec<String>,
}

/// The head of a session, as mathematical values.
pub struct DateView {
    pub key: DateKeyView,
    pub title: Seq<char>,
    pub tags: Seq<Seq<char>>,
}

impl View for Date {
    type V = DateView;

    open spec fn view(&self) -> DateView {
        DateView { key: self.key@, title: self.title@, tags: texts(self.tags@) }
    }
}

impl Clone for Date {
    fn clone(&self) -> (r: Date)
        ensures
            r@ == self@,
    {
        Date {
            key: self.key.clone(),
            title: self.title.clone(),
            tags: crate::dagzet::clone_lines(&self.tags),
        }
    }
}

impl Default for Date {
    fn default() -> (r: Date)
        ensures
            r@ == (DateView {
                key: DateKeyView { month: 0, day: 0, year: 0, context: None },
                title: Seq::empty(),
                tags: Seq::empty(),
            }),
    {
        let r = Date { key: DateKey::default(), title: String::new(), tags: Vec::new() };
        assert(r@.tags =~= Seq::empty());
        r
    }
}

/// The head of an entry: its time, title and tags, and its number among the
/// entities.
pub struct Time {
    pub id: EntityId,
    pub key: TimeKey,
    pub title: String,
    pub tags: Vec<String>,
}

/// The head of an entry, as mathematical values.
pub struct TimeView {
    pub id: EntityId,
    pub key: TimeKey,
    pub title: Seq<char>,
    pub tags: Seq<Seq<char>>,
}

impl View for Time {
    type V = TimeView;

    open spec fn view(&self) -> TimeView {
        TimeView { id: self.id, key: self.key, title: self.title@, tags: texts(self.tags@) }
    }
}

impl Clone for Time {
    fn clone(&self) -> (r: Time)
        ensures
            r@ == self@,
    {
        Time {
            id: self.id,
            key: self.key,
            title: self.title.clone(),
            tags: crate::dagzet::clone_lines(&self.tags),
        }
    }
}

impl Default for Time {
    fn default() -> (r: Time)
        ensures
            r@ == (TimeView {
                id: 0,
                key: TimeKey { hour: 0, minute: 0 },
                title: Seq::empty(),
                tags: Seq::empty(),
            }),
    {
        let r = Time {
            id: 0,
            key: TimeKey { hour: 0, minute: 0 },
            title: String::new(),
            tags: Vec::new(),
        };
        assert(r@.tags =~= Seq::empty());
        r
    }
}

impl Time {
    /// The entry head with another hour.
    pub fn hour(self, hour: u8) -> (r: Time)
        ensures
            r@ == (TimeView { key: TimeKey { hour, minute: self.key.minute }, ..self@ }),
    {
        Time {
            id: self.id,
            key: TimeKey { hour, minute: self.key.minute },
            title: self.title,
            tags: self.tags,
        }
    }

    /// The entry head with another minute.
    pub fn minute(self, minute: u8) -> (r: Time)
        ensures
            r@ == (TimeView { key: TimeKey { hour: self.key.hour, minute }, ..self@ }),
    {
        Time {
            id: self.id,
            key: TimeKey { hour: self.key.hour, minute },
            title: self.title,
            tags: self.tags,
        }
    }
}

/// A single line of text.
pub struct TextLine {
    pub text: String,
}

impl Clone for TextLine {
    fn clone(&self) -> (r: TextLine)
        ensures
            r.text@ == self.text@,
    {
        TextLine { text: self.text.clone() }
    }
}

/// A command: its arguments.
pub struct Command {
    pub args: Vec<String>,
}

impl Clone for Command {
    fn clone(&self) -> (r: Command)
        ensures
            texts(r.args@) == texts(self.args@),
    {
        Command { args: crate::dagzet::clone_lines(&self.args) }
    }
}

/// A block of text: its lines, and its number among the entities.
pub struct TextBlock {
    pub uuid: EntityId,
    pub lines: Vec<String>,
}

/// A block of text, as mathematical values.
pub struct TextBlockView {
    pub uuid: EntityId,
    pub lines: Seq<Seq<char>>,
}

impl View for TextBlock {
    type V = TextBlockView;

    open spec fn view(&self) -> TextBlockView {
        TextBlockView { uuid: self.uuid, lines: texts(self.lines@) }
    }
}

impl Clone for TextBlock {
    fn clone(&self) -> (r: TextBlock)
        ensures
            r@ == self@,
    {
        TextBlock { uuid: self.uuid, lines: crate::dagzet::clone_lines(&self.lines) }
    }
}

impl Default for TextBlock {
    fn default() -> (r: TextBlock)
        ensures
            r@ == (TextBlockView { uuid: 0, lines: Seq::empty() }),
    {
        let r = TextBlock { uuid: 0, lines: Vec::new() };
        assert(r@.lines =~= Seq::empty());
        r
    }
}

impl TextBlock {
    /// A block of the given lines, without a number yet.
    pub fn new(lines: Vec<String>) -> (r: TextBlock)
        ensures
            r@ == (TextBlockView { uuid: 0, lines: texts(lines@) }),
    {
        TextBlock { uuid: 0, lines }
    }
}

/// A block.
pub enum BlockData {
    Text(TextBlock),
}

impl View for BlockData {
    type V = TextBlockView;

    open spec fn view(&self) -> TextBlockView {
        match self {
            BlockData::Text(t) => t@,
        }
    }
}

impl Clone for BlockData {
    fn clone(&self) -> (r: BlockData)
        ensures
            r@ == self@,
    {
        match self {
            BlockData::Text(t) => BlockData::Text(t.clone()),
        }
    }
}

impl Default for BlockData {
    fn default() -> (r: BlockData)
        ensures
            r@ == (TextBlockView { uuid: 0, lines: Seq::empty() }),
    {
        BlockData::Text(TextBlock::default())
    }
}

impl BlockData {
    /// The lines of the block, joined with single spaces.
    pub fn text(&self) -> (r: String)
        ensures
            r@ == crate::text::joined(self@.lines, " "@),
    {
        match self {
            BlockData::Text(t) => crate::text::join(&t.lines, " "),
        }
    }
}

/// Whether `a` comes before `b` in the order of the dictionary, from the
/// index `i` on: the first character that differs decides, and a text comes
/// before every text that it begins.
pub open spec fn text_before_from(a: Seq<char>, b: Seq<char>, i: int) -> bool
    decreases a.len() - i,
{
    if i < 0 || i >= b.len() {
        false
    } else if i >= a.len() {
        true
    } else if a[i] != b[i] {
        (a[i] as u32) < (b[i] as u32)
    } else {
        text_before_from(a, b, i + 1)
    }
}

/// Whether `a` comes before `b` in the order of the dictionary.
pub open spec fn text_before(a: Seq<char>, b: Seq<char>) -> bool {
    text_before_from(a, b, 0)
}

/// Whether the context `a` comes before `b`: no context comes first.
pub open spec fn context_before(a: Option<Seq<char>>, b: Option<Seq<char>>) -> bool {
    match (a, b) {
        (None, None) => false,
        (None, Some(_)) => true,
        (Some(_), None) => false,
        (Some(x), Some(y)) => text_before(x, y),
    }
}

/// Whether the session of `a` comes before that of `b`: by the month, then
/// the day, then the year, then the context.
pub open spec fn date_before(a: DateKeyView, b: DateKeyView) -> bool {
    if a.month != b.month {
        a.month < b.month
    } else if a.day != b.day {
        a.day < b.day
    } else if a.year != b.year {
        a.year < b.year
    } else {
        context_before(a.context, b.context)
    }
}

/// Whether the time `a` is before `b`.
pub open spec fn time_before(a: TimeKey, b: TimeKey) -> bool {
    a.hour < b.hour || (a.hour == b.hour && a.minute < b.minute)
}

/// Whether `a` comes before `b` in the order of the dictionary.
pub fn is_text_before(a: &str, b: &str) -> (r: bool)
    ensures
        r == text_before(a@, b@),
{
    let x = crate::text::to_chars(a);
    let y = crate::text::to_chars(b);
    let mut i: usize = 0;
    loop
        invariant
            x@ == a@,
            y@ == b@,
            i <= x@.len(),
            i <= y@.len(),
            text_before_from(a@, b@, i as int) == text_before(a@, b@),
        decreases x@.len() - i,
    {
        if i >= y.len() {
            return false;
        }
        if i >= x.len() {
            return true;
        }
        if x[i] != y[i] {
            return (x[i] as u32) < (y[i] as u32);
        }
        i += 1;
    }
}

/// A key by which the items of a sorted list are ordered and found.
pub trait SortKey: Sized + View {
    /// Whether the key `a` comes before `b`.
    open spec fn before(a: Self::V, b: Self::V) -> bool {
        arbitrary()
    }

    /// Whether this key comes before `other`.
    fn is_before(&self, other: &Self) -> (r: bool)
        ensures
            r == Self::before(self@, other@),
    ;

    /// Whether this key is `other`.
    fn is_same(&self, other: &Self) -> (r: bool)
        ensures
            r == (self@ == other@),
    ;

    /// A copy of the key.
    fn copy(&self) -> (r: Self)
        ensures
            r@ == self@,
    ;
}

impl View for TimeKey {
    type V = TimeKey;

    open spec fn view(&self) -> TimeKey {
        *self
    }
}

impl SortKey for TimeKey {
    open spec fn before(a: TimeKey, b: TimeKey) -> bool {
        time_before(a, b)
    }

    fn is_before(&self, other: &Self) -> (r: bool) {
        self.hour < other.hour || (self.hour == other.hour && self.minute < other.minute)
    }

    fn is_same(&self, other: &Self) -> (r: bool) {
        self.hour == other.hour && self.minute == other.minute
    }

    fn copy(&self) -> (r: Self) {
        *self
    }
}

impl SortKey for DateKey {
    open spec fn before(a: DateKeyView, b: DateKeyView) -> bool {
        date_before(a, b)
    }

    fn is_before(&self, other: &Self) -> (r: bool) {
        if self.month != other.month {
            self.month < other.month
        } else if self.day != other.day {
            self.day < other.day
        } else if self.year != other.year {
            self.year < other.year
        } else {
            match (&self.context, &other.context) {
                (None, None) => false,
                (None, Some(_)) => true,
                (Some(_), None) => false,
                (Some(x), Some(y)) => is_text_before(x.as_str(), y.as_str()),
            }
        }
    }

    fn is_same(&self, other: &Self) -> (r: bool) {
        let same_context = match (&self.context, &other.context) {
            (None, None) => true,
            (Some(x), Some(y)) => *x == *y,
            _ => false,
        };
        self.month == other.month && self.day == other.day && self.year == other.year
            && same_context
    }

    fn copy(&self) -> (r: Self) {
        self.clone()
    }
}

/// The keys and values of a list of pairs, as mathematical values.
pub open spec fn pair_views<K: View, W: View>(v: Seq<(K, W)>) -> Seq<(K::V, W::V)> {
    Seq::new(v.len(), |i: int| (v[i].0@, v[i].1@))
}

/// The index of the first pair from `from` on whose key does not come
/// before `k`, or the length of the list.
pub open spec fn slot<K: SortKey, W>(s: Seq<(K::V, W)>, k: K::V, from: int) -> int
    decreases s.len() - from,
{
    if from < 0 || from >= s.len() || !K::before(s[from].0, k) {
        from
    } else {
        slot::<K, W>(s, k, from + 1)
    }
}

/// The list with the value `w` under the key `k`: it takes the place of
/// the value that was under this key, or stands before the first pair whose
/// key does not come before `k`.
pub open spec fn placed<K: SortKey, W>(s: Seq<(K::V, W)>, k: K::V, w: W) -> Seq<(K::V, W)> {
    let i = slot::<K, W>(s, k, 0);
    if 0 <= i < s.len() && s[i].0 == k {
        s.update(i, (k, w))
    } else {
        s.insert(i, (k, w))
    }
}

/// The index of the first pair from `from` on with the key `k`, or the
/// length of the list.
pub open spec fn key_index<KV, W>(s: Seq<(KV, W)>, k: KV, from: int) -> int
    decreases s.len() - from,
{
    if from < 0 || from >= s.len() || s[from].0 == k {
        from
    } else {
        key_index(s, k, from + 1)
    }
}

/// Puts `w` under the key `k` into a sorted list.
pub fn place<K: SortKey, W: View>(v: &mut Vec<(K, W)>, k: K, w: W)
    ensures
        pair_views(final(v)@) == placed::<K, W::V>(pair_views(old(v)@), k@, w@),
{
    let n: usize = v.len();
    let mut i: usize = 0;
    let ghost s = pair_views(v@);
    while i < n && v[i].0.is_before(&k)
        invariant
            n == v@.len(),
            i <= n,
            s == pair_views(v@),
            slot::<K, W::V>(s, k@, i as int) == slot::<K, W::V>(s, k@, 0),
        decreases n - i,
    {
        assert(s[i as int].0 == v@[i as int].0@);
        i += 1;
    }
    proof {
        if i < n {
            assert(s[i as int].0 == v@[i as int].0@);
        }
    }
    if i < n && v[i].0.is_same(&k) {
        v.set(i, (k, w));
        assert(pair_views(v@) =~= s.update(i as int, (k@, w@)));
    } else {
        v.insert(i, (k, w));
        assert(pair_views(v@) =~= s.insert(i as int, (k@, w@)));
    }
}

/// The index of the pair with the key `k`, or the length of the list.
pub fn find_key<K: SortKey, W: View>(v: &Vec<(K, W)>, k: &K) -> (r: usize)
    ensures
        r == key_index(pair_views(v@), k@, 0),
        r <= v@.len(),
{
    let n: usize = v.len();
    let mut i: usize = 0;
    let ghost s = pair_views(v@);
    while i < n
        invariant
            n == v@.len(),
            i <= n,
            s == pair_views(v@),
            key_index(s, k@, i as int) == key_index(s, k@, 0),
        decreases n - i,
    {
        assert(s[i as int].0 == v@[i as int].0@);
        if v[i].0.is_same(k) {
            return i;
        }
        i += 1;
    }
    i
}

/// What a session keeps of each of its entries.
pub trait EntryItem: Sized + View {
    /// The item of the entry headed by `time` that has the number `id`.
    open spec fn opened(time: TimeView, id: EntityId) -> Self::V {
        arbitrary()
    }

    /// The item with one more block.
    open spec fn with_block(v: Self::V, block: TextBlockView) -> Self::V {
        arbitrary()
    }

    /// Makes the item of the entry headed by `time` that has the number
    /// `id`.
    fn open(id: EntityId, time: &Time) -> (r: Self)
        ensures
            r@ == Self::opened(time@, id),
    ;

    /// Adds a block.
    fn append_block(&mut self, block: &BlockData)
        ensures
            final(self)@ == Self::with_block(old(self)@, block@),
    ;
}

/// What a session keeps of itself.
pub trait SessionItem: Sized + View {
    /// The item of the session headed by `date` that has the number `id`.
    open spec fn opened(date: DateView, id: EntityId) -> Self::V {
        arbitrary()
    }

    /// Whether a block can stand in the session outside every entry.
    open spec fn takes_blocks() -> bool {
        true
    }

    /// The item with one more block.
    open spec fn with_block(v: Self::V, block: TextBlockView) -> Self::V {
        arbitrary()
    }

    /// Makes the item of the session headed by `date` that has the number
    /// `id`.
    fn open(id: EntityId, date: &Date) -> (r: Self)
        ensures
            r@ == Self::opened(date@, id),
    ;

    /// Adds a block, where a block can stand in the session outside every
    /// entry; `false` if it cannot, and then nothing has changed.
    fn append_block(&mut self, block: &BlockData) -> (r: bool)
        ensures
            r == Self::takes_blocks(),
            final(self)@ == (if r {
                Self::with_block(old(self)@, block@)
            } else {
                old(self)@
            }),
    ;
}

/// The entries of a session, in the order of their times.
pub struct EntryMap<T> {
    pub inner: Vec<(TimeKey, T)>,
}

impl<T: EntryItem> EntryMap<T> {
    /// No entries.
    pub fn new() -> (r: Self)
        ensures
            pair_views(r.inner@) == Seq::<(TimeKey, T::V)>::empty(),
    {
        let r = EntryMap { inner: Vec::new() };
        assert(pair_views(r.inner@) =~= Seq::<(TimeKey, T::V)>::empty());
        r
    }

    /// Puts in the entry headed by `time`, which has the number `id`; it
    /// takes the place of an entry of the same time.
    pub fn insert(&mut self, id: usize, time: &Time)
        ensures
            pair_views(final(self).inner@) == placed::<TimeKey, T::V>(
                pair_views(old(self).inner@),
                time.key,
                T::opened(time@, id),
            ),
    {
        place(&mut self.inner, time.key, T::open(id, time));
    }

    /// The index of the entry of the time `entry_key`, or the number of
    /// entries.
    pub fn get_entry(&self, entry_key: &TimeKey) -> (r: usize)
        ensures
            r == key_index(pair_views(self.inner@), *entry_key, 0),
            r <= self.inner@.len(),
    {
        find_key(&self.inner, entry_key)
    }

    /// Adds a block to the entry of the time `entry_key`; `false` if there
    /// is no such entry, and then nothing has changed.
    pub fn append_block(&mut self, entry_key: &TimeKey, block: &BlockData) -> (r: bool)
        ensures
            ({
                let entries = pair_views(old(self).inner@);
                let j = key_index(entries, *entry_key, 0);
                if j < entries.len() {
                    r && pair_views(final(self).inner@) == entries.update(
                        j,
                        (entries[j].0, T::with_block(entries[j].1, block@)),
                    )
                } else {
                    !r && pair_views(final(self).inner@) == entries
                }
            }),
    {
        let j = self.get_entry(entry_key);
        if j >= self.inner.len() {
            return false;
        }
        let ghost entries = pair_views(self.inner@);
        let ghost item = self.inner@[j as int];
        assert(entries[j as int] == (item.0@, item.1@));
        let entry = &mut self.inner[j];
        entry.1.append_block(block);
        assert(pair_views(self.inner@) =~= entries.update(
            j as int,
            (item.0@, T::with_block(item.1@, block@)),
        ));
        true
    }
}

/// A session: its entries and what it keeps of itself.
pub struct SessionWrapper<T, S> {
    pub entries: EntryMap<T>,
    pub data: S,
}

/// A session, as mathematical values.
pub struct SessionView<TV, SV> {
    pub entries: Seq<(TimeKey, TV)>,
    pub data: SV,
}

impl<T: View, S: View> View for SessionWrapper<T, S> {
    type V = SessionView<T::V, S::V>;

    open spec fn view(&self) -> SessionView<T::V, S::V> {
        SessionView { entries: pair_views(self.entries.inner@), data: self.data@ }
    }
}

/// The sessions of a journal, in the order of their days.
pub type DateMap<T, U> = Vec<(DateKey, SessionWrapper<T, U>)>;

/// The sessions of a journal.
pub struct SessionMap<T, U> {
    pub inner: DateMap<T, U>,
}

impl<T: EntryItem, U: SessionItem> SessionMap<T, U> {
    /// No sessions.
    pub fn new() -> (r: Self)
        ensures
            pair_views(r.inner@) == Seq::<(DateKeyView, SessionView<T::V, U::V>)>::empty(),
    {
        let r = SessionMap { inner: Vec::new() };
        assert(pair_views(r.inner@) =~= Seq::<(DateKeyView, SessionView<T::V, U::V>)>::empty());
        r
    }

    /// Puts in the session headed by `date`, which has the number `id` and
    /// no entries yet; it takes the place of a session of the same day and
    /// context.
    pub fn insert(&mut self, id: usize, date: &Date)
        ensures
            pair_views(final(self).inner@) == placed::<DateKey, SessionView<T::V, U::V>>(
                pair_views(old(self).inner@),
                date@.key,
                SessionView { entries: Seq::empty(), data: U::opened(date@, id) },
            ),
    {
        let wrapper = SessionWrapper { entries: EntryMap::<T>::new(), data: U::open(id, date) };
        place(&mut self.inner, date.key.clone(), wrapper);
    }

    /// The index of the session of the day and context `session_key`, or
    /// the number of sessions.
    pub fn get_session(&self, session_key: &DateKey) -> (r: usize)
        ensures
            r == key_index(pair_views(self.inner@), session_key@, 0),
            r <= self.inner@.len(),
    {
        find_key(&self.inner, session_key)
    }
}

/// The blocks of an entry with its title and tags.
pub struct EntryData {
    pub title: String,
    pub tags: Vec<String>,
    pub blocks: Vec<BlockData>,
}

/// An entry with its blocks, as mathematical values.
pub struct EntryDataView {
    pub title: Seq<char>,
    pub tags: Seq<Seq<char>>,
    pub blocks: Seq<TextBlockView>,
}

/// The views of a list of blocks.
pub open spec fn block_views(v: Seq<BlockData>) -> Seq<TextBlockView> {
    Seq::new(v.len(), |i: int| v[i]@)
}

impl View for EntryData {
    type V = EntryDataView;

    open spec fn view(&self) -> EntryDataView {
        EntryDataView {
            title: self.title@,
            tags: texts(self.tags@),
            blocks: block_views(self.blocks@),
        }
    }
}

impl EntryItem for EntryData {
    /// The title and tags of the entry, and no block yet.
    open spec fn opened(time: TimeView, id: EntityId) -> EntryDataView {
        EntryDataView { title: time.title, tags: time.tags, blocks: Seq::empty() }
    }

    open spec fn with_block(v: EntryDataView, block: TextBlockView) -> EntryDataView {
        EntryDataView { blocks: v.blocks.push(block), ..v }
    }

    fn open(id: EntityId, time: &Time) -> (r: Self) {
        let r = EntryData {
            title: time.title.clone(),
            tags: crate::dagzet::clone_lines(&time.tags),
            blocks: Vec::new(),
        };
        assert(r@.blocks =~= Seq::empty());
        r
    }

    fn append_block(&mut self, block: &BlockData) {
        let ghost before = block_views(self.blocks@);
        self.blocks.push(block.clone());
        assert(block_views(self.blocks@) =~= before.push(block@));
    }
}

/// The title and tags of a session.
pub struct SessionInfo {
    pub title: String,
    pub tags: Vec<String>,
}

/// The title and tags of a session, as mathematical values.
pub struct SessionInfoView {
    pub title: Seq<char>,
    pub tags: Seq<Seq<char>>,
}

impl View for SessionInfo {
    type V = SessionInfoView;

    open spec fn view(&self) -> SessionInfoView {
        SessionInfoView { title: self.title@, tags: texts(self.tags@) }
    }
}

impl SessionItem for SessionInfo {
    open spec fn opened(date: DateView, id: EntityId) -> SessionInfoView {
        SessionInfoView { title: date.title, tags: date.tags }
    }

    /// A block has to stand in an entry.
    open spec fn takes_blocks() -> bool {
        false
    }

    open spec fn with_block(v: SessionInfoView, block: TextBlockView) -> SessionInfoView {
        v
    }

    fn open(id: EntityId, date: &Date) -> (r: Self) {
        SessionInfo { title: date.title.clone(), tags: crate::dagzet::clone_lines(&date.tags) }
    }

    fn append_block(&mut self, block: &BlockData) -> (r: bool) {
        false
    }
}

/// The kind of a block.
#[derive(Clone, Copy, Debug, PartialEq, Eq, Structural)]
pub enum Block {
    Text,
}

/// An entry: its head and the kinds of its blocks.
pub struct Entry {
    pub time: Time,
    pub blocks: Vec<Block>,
}

impl Clone for Entry {
    fn clone(&self) -> (r: Entry)
        ensures
            r.time@ == self.time@,
            r.blocks@ == self.blocks@,
    {
        let mut blocks: Vec<Block> = Vec::new();
        let n: usize = self.blocks.len();
        let mut i: usize = 0;
        while i < n
            invariant
                n == self.blocks@.len(),
                i <= n,
                blocks@ == self.blocks@.subrange(0, i as int),
            decreases n - i,
        {
            blocks.push(self.blocks[i]);
            i += 1;
            assert(blocks@ =~= self.blocks@.subrange(0, i as int));
        }
        assert(self.blocks@.subrange(0, n as int) =~= self.blocks@);
        Entry { time: self.time.clone(), blocks }
    }
}

impl Default for Entry {
    fn default() -> (r: Entry)
        ensures
            r.time@ == (TimeView {
                id: 0,
                key: TimeKey { hour: 0, minute: 0 },
                title: Seq::empty(),
                tags: Seq::empty(),
            }),
            r.blocks@.len() == 0,
    {
        Entry { time: Time::default(), blocks: Vec::new() }
    }
}

/// A session: its head and its entries in the order of their times.
pub struct Session {
    pub date: Date,
    pub entries: Vec<Entry>,
}

impl Default for Session {
    fn default() -> (r: Session)
        ensures
            r.date@ == (DateView {
                key: DateKeyView { month: 0, day: 0, year: 0, context: None },
                title: Seq::empty(),
                tags: Seq::empty(),
            }),
            r.entries@.len() == 0,
    {
        Session { date: Date::default(), entries: Vec::new() }
    }
}

} // verus!
