use crate::json::{from_value, to_value, values_view, Json, JsonValue};
use crate::text::text_of;
use vstd::prelude::*;

verus! {

/// What the path `path` selects in `document`, as the path engine of the
/// `jsonpath` crate has it: the values it finds, in the order in which it
/// finds them, or the message with which it refuses the path.
pub uninterp spec fn path_query(path: Seq<char>, document: JsonValue) -> Result<
    Seq<JsonValue>,
    Seq<char>,
>;

/// How deep the filters of a path may be nested and the path still be handed
/// to the path engine, which nests its work as deep as they are.
pub const MAX_DEPTH: usize = 64;

/// The least number that is too large for the number of a filter: the
/// engine has 63 bits for it.
pub const TOO_LARGE: u64 = 9223372036854775808;

/// Whether `c` is one of the ten digits.
pub open spec fn digit(c: char) -> bool {
    0x30 <= c as u32 <= 0x39
}

/// The sign of a filter that was read last, as long as only spaces have
/// followed it.
#[derive(Clone, Copy, Debug, PartialEq, Eq, Structural)]
pub enum Pending {
    Nothing,
    /// `==` or `!=`.
    Equality,
    /// `<` or `>`.
    Order,
}

/// What is known of a path when a part of it has been read.
pub struct Read {
    /// The places of the `?` of the filters that are open, the outermost
    /// first.
    pub opens: Seq<int>,
    pub pending: Pending,
    /// The number that is being read behind a sign, as far as its digits
    /// have come, or `TOO_LARGE` where it is as large or larger.
    pub number: Option<u64>,
    /// Such a number, where a dot was read directly behind it.
    pub dotted: Option<u64>,
    /// Where the number began that `number` or `dotted` tells of.
    pub began: int,
    /// At some place more than `MAX_DEPTH` filters were open.
    pub deep: bool,
    /// Where the first number begins that stands behind a sign in a filter,
    /// has no fraction and is too large.
    pub long: Option<int>,
}

/// `Read`, as it is kept while a path is read.
pub struct Scan {
    pub opens: Vec<usize>,
    pub pending: Pending,
    pub number: Option<u64>,
    pub dotted: Option<u64>,
    pub began: usize,
    pub deep: bool,
    pub long: Option<usize>,
}

/// The places of `opens`, as numbers without a bound.
pub open spec fn places(opens: Seq<usize>) -> Seq<int> {
    opens.map_values(|open: usize| open as int)
}

impl View for Scan {
    type V = Read;

    open spec fn view(&self) -> Read {
        Read {
            opens: places(self.opens@),
            pending: self.pending,
            number: self.number,
            dotted: self.dotted,
            began: self.began as int,
            deep: self.deep,
            long: match self.long {
                Some(from) => Some(from as int),
                None => None,
            },
        }
    }
}

/// The number `value` with the digit `c` behind it, or `TOO_LARGE` where
/// that is as large or larger.
pub open spec fn grow(value: u64, c: char) -> u64 {
    let grown = value * 10 + (c as u32 - 0x30);
    if grown >= TOO_LARGE {
        TOO_LARGE
    } else {
        grown as u64
    }
}

/// What is known before anything is read.
pub open spec fn start() -> Read {
    Read {
        opens: Seq::empty(),
        pending: Pending::Nothing,
        number: None,
        dotted: None,
        began: 0,
        deep: false,
        long: None,
    }
}

/// What is known when `c`, which stands at `at`, is read after `s`.
///
/// A `?` opens a filter and a `)` closes the innermost. A sign is pending
/// until something else than a space follows. Digits directly behind a
/// pending sign are a number, which is complete at the first character that
/// is neither a digit nor a dot, or behind a dot that no digit follows.
pub open spec fn step(s: Read, c: char, at: int) -> Read {
    let opens = if c == '?' {
        s.opens.push(at)
    } else if c == ')' && s.opens.len() > 0 {
        s.opens.drop_last()
    } else {
        s.opens
    };
    let complete = if digit(c) {
        None
    } else if s.dotted is Some {
        s.dotted
    } else if c == '.' {
        None
    } else {
        s.number
    };
    Read {
        opens,
        pending: if c == '<' || c == '>' {
            Pending::Order
        } else if c == '=' {
            Pending::Equality
        } else if c == ' ' {
            s.pending
        } else {
            Pending::Nothing
        },
        number: if digit(c) {
            match s.number {
                Some(value) => Some(grow(value, c)),
                None => if s.pending != Pending::Nothing {
                    Some(grow(0, c))
                } else {
                    None
                },
            }
        } else {
            None
        },
        dotted: if c == '.' {
            s.number
        } else {
            None
        },
        began: if digit(c) && s.number is None {
            at
        } else {
            s.began
        },
        deep: s.deep || opens.len() > MAX_DEPTH,
        long: if s.long is None && complete == Some(TOO_LARGE) && s.opens.len() > 0 {
            Some(s.began)
        } else {
            s.long
        },
    }
}

/// What is known of `t` when its first `n` characters have been read.
pub open spec fn scan(t: Seq<char>, n: int) -> Read
    decreases n,
{
    if n <= 0 || n > t.len() {
        start()
    } else {
        step(scan(t, n - 1), t[n - 1], n - 1)
    }
}

/// The paths on which the engine aborts whatever the document: a filter
/// holds a number without a fraction that is too large for it. Those whose
/// filters are nested deeper than `MAX_DEPTH` are not handed on either.
pub open spec fn hard(t: Seq<char>) -> bool {
    scan(t, t.len() as int).deep || scan(t, t.len() as int).long is Some
}

/// Whether the filter whose `?` stands at `open` starts at the root of the
/// document, as can be told before the place `before`.
pub open spec fn root_at(t: Seq<char>, open: int, before: int) -> bool {
    0 <= open && open + 2 < before && t[open + 2] == '$'
}

/// Whether all the filters of `opens` start at the root.
pub open spec fn all_root(t: Seq<char>, opens: Seq<int>, before: int) -> bool {
    forall|j: int| 0 <= j < opens.len() ==> root_at(t, #[trigger] opens[j], before)
}

/// Whether at `at` a number begins with which a filter compares in order,
/// and that filter and all the filters around it start at the root. The
/// engine aborts when it comes to evaluate such a filter. A filter inside
/// one that starts at the element is never evaluated.
pub open spec fn danger_at(t: Seq<char>, at: int) -> bool {
    let s = scan(t, at);
    &&& 0 <= at < t.len()
    &&& digit(t[at])
    &&& s.number is None
    &&& s.pending == Pending::Order
    &&& s.opens.len() > 0
    &&& all_root(t, s.opens, at)
}

/// Where the outermost filter begins that is open at `at`: before its `[`.
pub open spec fn cut_at(t: Seq<char>, at: int) -> int {
    let first = scan(t, at).opens[0];
    if first > 0 {
        first - 1
    } else {
        0
    }
}

/// The path that finds what the outermost filter open at `at` is asked of:
/// the path as far as that filter, and every child of what it finds.
pub open spec fn probe(t: Seq<char>, at: int) -> Seq<char> {
    t.take(cut_at(t, at)) + seq!['.', '*']
}

/// Whether the engine found a value.
pub open spec fn finds_some(found: Result<Seq<JsonValue>, Seq<char>>) -> bool {
    found matches Ok(values) && values.len() > 0
}

/// The path that finds what a filter inside another is asked of: the path
/// of the filter around it, from its `$` as far as the filter inside, and
/// every child of what it finds.
pub open spec fn inner_probe(t: Seq<char>, from: int, to: int) -> Seq<char> {
    t.subrange(from, to) + seq!['.', '*']
}

/// Whether in `document` the engine, once it evaluates the filter of `opens`
/// at `level - 1`, comes to the one at `level` inside it. Where the path
/// that would tell is itself kept from the engine, the answer is yes.
pub open spec fn level_reached(t: Seq<char>, opens: Seq<int>, level: int, document: JsonValue) -> bool
    decreases t.len(), 0int, 0int,
{
    let from = opens[level - 1] + 2;
    let to = opens[level] - 1;
    if 2 <= from <= to < t.len() {
        let asked = inner_probe(t, from, to);
        refused(asked, document) || finds_some(path_query(asked, document))
    } else {
        true
    }
}

/// Whether the engine comes from each of the first `upto` filters of `opens`
/// to the one inside it.
pub open spec fn levels_reached(t: Seq<char>, opens: Seq<int>, upto: int, document: JsonValue) -> bool
    decreases t.len(), 1int, upto,
{
    if upto <= 1 {
        true
    } else {
        levels_reached(t, opens, upto - 1, document) && level_reached(
            t,
            opens,
            upto - 1,
            document,
        )
    }
}

/// Whether in `document` the engine comes to the innermost filter that is
/// open at `at`: there is something that the outermost filter is asked of,
/// and so on for each filter inside it.
pub open spec fn reached(t: Seq<char>, at: int, document: JsonValue) -> bool
    decreases t.len(), 2int, 0int,
{
    let opens = scan(t, at).opens;
    &&& !hard(probe(t, at))
    &&& finds_some(path_query(probe(t, at), document))
    &&& levels_reached(t, opens, opens.len() as int, document)
}

/// Whether before the place `n` of `t` a filter stands on which the engine
/// aborts, and in `document` the engine comes to it.
pub open spec fn comes_to_one(t: Seq<char>, n: int, document: JsonValue) -> bool
    decreases t.len(), 3int, n,
{
    if n <= 0 {
        false
    } else {
        comes_to_one(t, n - 1, document) || (danger_at(t, n - 1) && reached(t, n - 1, document))
    }
}

/// The paths that are not handed to the path engine for `document`, because
/// it aborts on them: those of `hard`, and those with a filter from the root
/// that compares in order with a number, where the engine comes to it.
pub open spec fn refused(t: Seq<char>, document: JsonValue) -> bool
    decreases t.len(), 4int, 0int,
{
    hard(t) || comes_to_one(t, t.len() as int, document)
}

/// What has been read of two texts that begin alike is known alike.
pub proof fn scan_agrees(a: Seq<char>, b: Seq<char>, n: int)
    requires
        0 <= n <= a.len(),
        n <= b.len(),
        forall|i: int| 0 <= i < n ==> a[i] == b[i],
    ensures
        scan(a, n) == scan(b, n),
    decreases n,
{
    if n > 0 {
        scan_agrees(a, b, n - 1);
    }
}

/// The filters that are open began where something has been read.
pub proof fn opens_are_behind(t: Seq<char>, n: int)
    requires
        0 <= n <= t.len(),
    ensures
        forall|j: int| 0 <= j < scan(t, n).opens.len() ==> 0 <= #[trigger] scan(t, n).opens[j] < n,
    decreases n,
{
    if n > 0 {
        opens_are_behind(t, n - 1);
    }
}

/// As long as no `?` has been read, no filter is open and nothing has been
/// met on which the engine aborts.
proof fn no_filter_so_far(t: Seq<char>, n: int, document: JsonValue)
    requires
        0 <= n <= t.len(),
        forall|i: int| 0 <= i < n ==> t[i] != '?',
    ensures
        scan(t, n).opens.len() == 0,
        !scan(t, n).deep,
        scan(t, n).long is None,
        !comes_to_one(t, n, document),
    decreases n,
{
    if n > 0 {
        no_filter_so_far(t, n - 1, document);
    }
}

/// A path without a filter is handed to the engine, whatever else it holds
/// and whatever the document.
pub proof fn a_path_without_filter_is_handed_on(t: Seq<char>, document: JsonValue)
    requires
        forall|i: int| 0 <= i < t.len() ==> t[i] != '?',
    ensures
        !refused(t, document),
{
    no_filter_so_far(t, t.len() as int, document);
}

/// The filters that are open began at a `?`.
pub proof fn opens_are_marks(t: Seq<char>, n: int)
    requires
        0 <= n <= t.len(),
    ensures
        forall|j: int|
            0 <= j < scan(t, n).opens.len() ==> 0 <= #[trigger] scan(t, n).opens[j] < n && t[scan(
                t,
                n,
            ).opens[j]] == '?',
    decreases n,
{
    if n > 0 {
        opens_are_marks(t, n - 1);
    }
}

/// Where no filter of a path starts at the root, the engine comes to no
/// filter on which it aborts.
proof fn no_root_filter_so_far(t: Seq<char>, n: int, document: JsonValue)
    requires
        0 <= n <= t.len(),
        forall|i: int| 0 <= i && i + 2 < t.len() && #[trigger] t[i] == '?' ==> t[i + 2] != '$',
    ensures
        !comes_to_one(t, n, document),
    decreases n,
{
    if n > 0 {
        no_root_filter_so_far(t, n - 1, document);
        let at = n - 1;
        opens_are_marks(t, at);
        if danger_at(t, at) {
            let first = scan(t, at).opens[0];
            assert(root_at(t, first, at));
            assert(t[first] == '?');
        }
    }
}

/// A path none of whose filters starts at the root is handed to the engine
/// for every document, unless it is one of `hard`.
pub proof fn filters_from_the_element_are_handed_on(t: Seq<char>, document: JsonValue)
    requires
        forall|i: int| 0 <= i && i + 2 < t.len() && #[trigger] t[i] == '?' ==> t[i + 2] != '$',
    ensures
        refused(t, document) == hard(t),
{
    no_root_filter_so_far(t, t.len() as int, document);
}

/// As long as neither `<` nor `>` has been read, no sign of order is
/// pending, and the engine comes to no filter on which it aborts.
proof fn no_order_so_far(t: Seq<char>, n: int, document: JsonValue)
    requires
        0 <= n <= t.len(),
        forall|i: int| 0 <= i < n ==> t[i] != '<' && t[i] != '>',
    ensures
        scan(t, n).pending != Pending::Order,
        !comes_to_one(t, n, document),
    decreases n,
{
    if n > 0 {
        no_order_so_far(t, n - 1, document);
    }
}

/// A path that compares nowhere in order is handed to the engine for every
/// document, unless it is one of `hard`.
pub proof fn filters_without_order_are_handed_on(t: Seq<char>, document: JsonValue)
    requires
        forall|i: int| 0 <= i < t.len() ==> t[i] != '<' && t[i] != '>',
    ensures
        refused(t, document) == hard(t),
{
    no_order_so_far(t, t.len() as int, document);
}

/// A filter to which the engine does not come is no reason to keep a path
/// from it: where the path as far as the outermost filter finds nothing of
/// which the filter could be asked, the filter is not reached.
pub proof fn nothing_to_ask_of_the_filter(t: Seq<char>, at: int, document: JsonValue)
    requires
        !finds_some(path_query(probe(t, at), document)),
    ensures
        !reached(t, at, document),
{
}

/// Where the engine comes to no filter of the kind before a place, it comes
/// to none before an earlier place.
pub proof fn comes_to_none_before(t: Seq<char>, early: int, late: int, document: JsonValue)
    requires
        early <= late,
        !comes_to_one(t, late, document),
    ensures
        !comes_to_one(t, early, document),
    decreases late - early,
{
    if early < late && late > 0 {
        comes_to_none_before(t, early, late - 1, document);
    }
}

/// The filters of two texts that begin alike are reached alike, where they
/// stand in the part that is alike.
proof fn levels_agree(q: Seq<char>, t: Seq<char>, opens: Seq<int>, upto: int, n: int, document: JsonValue)
    requires
        0 <= n <= q.len(),
        n <= t.len(),
        forall|i: int| 0 <= i < n ==> q[i] == t[i],
        upto <= opens.len(),
        forall|j: int| 0 <= j < opens.len() ==> 0 <= #[trigger] opens[j] < n,
    ensures
        levels_reached(q, opens, upto, document) == levels_reached(t, opens, upto, document),
    decreases upto,
{
    if upto > 1 {
        levels_agree(q, t, opens, upto - 1, n, document);
        let from = opens[upto - 2] + 2;
        let to = opens[upto - 1] - 1;
        assert(0 <= opens[upto - 2] < n && 0 <= opens[upto - 1] < n);
        if 2 <= from <= to {
            assert(q.subrange(from, to) =~= t.subrange(from, to));
            assert(inner_probe(q, from, to) == inner_probe(t, from, to));
        }
        assert(level_reached(q, opens, upto - 1, document) == level_reached(
            t,
            opens,
            upto - 1,
            document,
        ));
    }
}

/// In two texts that begin alike the engine comes to the same filters, as
/// far as they are alike.
proof fn courses_agree(q: Seq<char>, t: Seq<char>, n: int, document: JsonValue)
    requires
        0 <= n <= q.len(),
        n <= t.len(),
        forall|i: int| 0 <= i < n ==> q[i] == t[i],
    ensures
        comes_to_one(q, n, document) == comes_to_one(t, n, document),
    decreases n,
{
    if n > 0 {
        courses_agree(q, t, n - 1, document);
        let at = n - 1;
        scan_agrees(q, t, at);
        opens_are_behind(t, at);
        let opens = scan(t, at).opens;
        assert(all_root(q, opens, at) == all_root(t, opens, at)) by {
            if all_root(q, opens, at) {
                assert forall|j: int| 0 <= j < opens.len() implies root_at(t, #[trigger] opens[j], at) by {
                    assert(root_at(q, opens[j], at));
                }
            }
            if all_root(t, opens, at) {
                assert forall|j: int| 0 <= j < opens.len() implies root_at(q, #[trigger] opens[j], at) by {
                    assert(root_at(t, opens[j], at));
                }
            }
        }
        assert(q[at] == t[at]);
        assert(danger_at(q, at) == danger_at(t, at));
        if danger_at(t, at) {
            assert(0 <= opens[0] < at);
            assert(q.take(cut_at(q, at)) =~= t.take(cut_at(t, at)));
            assert(probe(q, at) == probe(t, at));
            levels_agree(q, t, opens, opens.len() as int, at, document);
            assert(reached(q, at, document) == reached(t, at, document));
        }
    }
}

/// The path that tells whether a filter is reached holds nothing that the
/// engine aborts on, where the path it was cut from holds nothing of the
/// kind before that filter.
pub proof fn probe_is_handed_on(t: Seq<char>, at: int, document: JsonValue)
    requires
        0 <= at < t.len(),
        scan(t, at).opens.len() > 0,
        !hard(probe(t, at)),
        !comes_to_one(t, at, document),
    ensures
        !refused(probe(t, at), document),
{
    let q = probe(t, at);
    let cut = cut_at(t, at);
    opens_are_behind(t, at);
    assert(0 <= cut < at);
    comes_to_none_before(t, cut, at, document);
    courses_agree(q, t, cut, document);
    assert(!digit(q[cut]) && !digit(q[cut + 1]));
    assert(!comes_to_one(q, cut + 1, document));
    assert(!comes_to_one(q, cut + 2, document));
}

/// A filter that is not reached from the one around it leaves the innermost
/// unreached.
proof fn one_level_fails(t: Seq<char>, opens: Seq<int>, level: int, upto: int, document: JsonValue)
    requires
        1 <= level < upto,
        !level_reached(t, opens, level, document),
    ensures
        !levels_reached(t, opens, upto, document),
    decreases upto,
{
    if upto > level + 1 {
        one_level_fails(t, opens, level, upto - 1, document);
    }
}

impl Scan {
    /// What is known before anything is read.
    pub fn new() -> (state: Scan)
        ensures
            state@ == start(),
    {
        let state = Scan {
            opens: Vec::new(),
            pending: Pending::Nothing,
            number: None,
            dotted: None,
            began: 0,
            deep: false,
            long: None,
        };
        proof {
            assert(state@.opens =~= Seq::<int>::empty());
        }
        state
    }

    /// Reads `c`, which stands at `at`.
    pub fn take(&mut self, c: char, at: usize)
        ensures
            final(self)@ == step(old(self)@, c, at as int),
    {
        let ghost before = self@;
        let is_digit = 0x30 <= c as u32 && c as u32 <= 0x39;
        let complete = if is_digit {
            None
        } else if self.dotted.is_some() {
            self.dotted
        } else if c == '.' {
            None
        } else {
            self.number
        };
        let long = if self.long.is_none() && complete == Some(TOO_LARGE) && self.opens.len() > 0 {
            Some(self.began)
        } else {
            self.long
        };
        let began = if is_digit && self.number.is_none() {
            at
        } else {
            self.began
        };
        let number = if is_digit {
            match self.number {
                Some(value) => Some(grown(value, c)),
                None => if self.pending != Pending::Nothing {
                    Some(grown(0, c))
                } else {
                    None
                },
            }
        } else {
            None
        };
        let dotted = if c == '.' {
            self.number
        } else {
            None
        };
        let pending = if c == '<' || c == '>' {
            Pending::Order
        } else if c == '=' {
            Pending::Equality
        } else if c == ' ' {
            self.pending
        } else {
            Pending::Nothing
        };
        if c == '?' {
            self.opens.push(at);
        } else if c == ')' && self.opens.len() > 0 {
            self.opens.pop();
        }
        self.deep = self.deep || self.opens.len() > MAX_DEPTH;
        self.long = long;
        self.began = began;
        self.number = number;
        self.dotted = dotted;
        self.pending = pending;
        proof {
            assert(self@.opens =~= step(before, c, at as int).opens);
        }
    }
}

/// The number `value` with the digit `c` behind it.
fn grown(value: u64, c: char) -> (more: u64)
    requires
        digit(c),
    ensures
        more == grow(value, c),
{
    let d: u128 = (c as u32 - 0x30) as u128;
    let wide: u128 = (value as u128) * 10 + d;
    if wide >= TOO_LARGE as u128 {
        TOO_LARGE
    } else {
        wide as u64
    }
}

/// Reads the whole of `path`.
pub fn examine(path: &Vec<char>) -> (state: Scan)
    ensures
        state@ == scan(path@, path.len() as int),
{
    let mut state = Scan::new();
    let mut i: usize = 0;
    while i < path.len()
        invariant
            i <= path.len(),
            state@ == scan(path@, i as int),
        decreases path.len() - i,
    {
        state.take(path[i], i);
        i += 1;
    }
    state
}

/// Tells whether all the filters of `opens` start at the root.
fn all_start_at_root(path: &Vec<char>, opens: &Vec<usize>, before: usize) -> (yes: bool)
    requires
        before <= path.len(),
    ensures
        yes == all_root(path@, places(opens@), before as int),
{
    let ghost seen = places(opens@);
    let mut j: usize = 0;
    while j < opens.len()
        invariant
            j <= opens.len(),
            before <= path.len(),
            seen == places(opens@),
            forall|k: int| 0 <= k < j ==> root_at(path@, #[trigger] seen[k], before as int),
        decreases opens.len() - j,
    {
        let open = opens[j];
        if open >= before || before - open <= 2 || path[open + 2] != '$' {
            assert(!root_at(path@, seen[j as int], before as int));
            return false;
        }
        j += 1;
    }
    true
}

/// Tells whether `path` is kept from the path engine for `document`. Where a
/// filter from the root compares in order with a number, the engine is asked
/// first whether there is anything that the filter would be asked of.
pub fn refuses(path: &Vec<char>, document: &Json) -> (yes: bool)
    ensures
        yes == refused(path@, document@),
    decreases path.len(), 2int,
{
    let whole = examine(path);
    if whole.deep || whole.long.is_some() {
        return true;
    }
    let mut state = Scan::new();
    let mut i: usize = 0;
    while i < path.len()
        invariant
            i <= path.len(),
            !hard(path@),
            state@ == scan(path@, i as int),
            !comes_to_one(path@, i as int, document@),
        decreases path.len() - i,
    {
        let c = path[i];
        let is_digit = 0x30 <= c as u32 && c as u32 <= 0x39;
        if is_digit && state.number.is_none() && state.pending == Pending::Order
            && state.opens.len() > 0 && all_start_at_root(path, &state.opens, i) {
            assert(danger_at(path@, i as int));
            if comes_to_filter(path, &state.opens, i, document) {
                proof {
                    assert(comes_to_one(path@, i + 1, document@));
                    if !comes_to_one(path@, path.len() as int, document@) {
                        comes_to_none_before(path@, i + 1, path.len() as int, document@);
                    }
                }
                return true;
            }
        }
        state.take(c, i);
        i += 1;
    }
    false
}

/// Tells whether in `document` the engine comes to the innermost of the
/// filters `opens`, which are open at `at`.
fn comes_to_filter(path: &Vec<char>, opens: &Vec<usize>, at: usize, document: &Json) -> (yes: bool)
    requires
        at < path.len(),
        opens.len() > 0,
        places(opens@) == scan(path@, at as int).opens,
        !comes_to_one(path@, at as int, document@),
    ensures
        yes == reached(path@, at as int, document@),
    decreases path.len(), 1int,
{
    let first = opens[0];
    proof {
        opens_are_behind(path@, at as int);
        assert(places(opens@)[0] == first as int);
        assert forall|j: int| 0 <= j < opens.len() implies #[trigger] opens@[j] < at by {
            assert(places(opens@)[j] == opens@[j] as int);
        }
    }
    let cut = if first > 0 {
        first - 1
    } else {
        0
    };
    let mut asked: Vec<char> = Vec::new();
    let mut k: usize = 0;
    while k < cut
        invariant
            k <= cut <= path.len(),
            asked@ == path@.take(k as int),
        decreases cut - k,
    {
        asked.push(path[k]);
        k += 1;
    }
    asked.push('.');
    asked.push('*');
    proof {
        assert(asked@ =~= probe(path@, at as int));
    }
    let inside = examine(&asked);
    if inside.deep || inside.long.is_some() {
        return false;
    }
    proof {
        probe_is_handed_on(path@, at as int, document@);
    }
    let text = text_of(&asked, 0, asked.len());
    proof {
        assert(asked@.subrange(0, asked.len() as int) =~= asked@);
    }
    match select(text.as_str(), document) {
        Ok(values) => {
            proof {
                assert(values_view(values@).len() == values@.len());
            }
            if values.len() > 0 {
                inner_levels_reached(path, opens, at, document)
            } else {
                false
            }
        },
        Err(_) => false,
    }
}

/// Tells whether the engine comes from each filter of `opens` to the one
/// inside it.
fn inner_levels_reached(path: &Vec<char>, opens: &Vec<usize>, at: usize, document: &Json) -> (yes:
    bool)
    requires
        at < path.len(),
        forall|j: int| 0 <= j < opens.len() ==> #[trigger] opens@[j] < at,
    ensures
        yes == levels_reached(path@, places(opens@), opens.len() as int, document@),
    decreases path.len(), 0int,
{
    let ghost seen = places(opens@);
    let mut level: usize = 1;
    while level < opens.len()
        invariant
            1 <= level,
            level <= opens.len() || level == 1,
            at < path.len(),
            seen == places(opens@),
            forall|j: int| 0 <= j < opens.len() ==> #[trigger] opens@[j] < at,
            levels_reached(path@, seen, level as int, document@),
        decreases opens.len() - level,
    {
        let around = opens[level - 1];
        let inside = opens[level];
        proof {
            assert(opens@[level - 1] < at && opens@[level as int] < at);
        }
        let from = around + 2;
        proof {
            assert(seen[level - 1] == around as int && seen[level as int] == inside as int);
        }
        if inside >= 1 && from <= inside - 1 {
            let to = inside - 1;
            let mut asked: Vec<char> = Vec::new();
            let mut k: usize = from;
            while k < to
                invariant
                    from <= k <= to < path.len(),
                    asked@ == path@.subrange(from as int, k as int),
                decreases to - k,
            {
                asked.push(path[k]);
                k += 1;
            }
            asked.push('.');
            asked.push('*');
            proof {
                assert(asked@ =~= inner_probe(path@, from as int, to as int));
            }
            let found = if refuses(&asked, document) {
                true
            } else {
                let text = text_of(&asked, 0, asked.len());
                proof {
                    assert(asked@.subrange(0, asked.len() as int) =~= asked@);
                }
                match select(text.as_str(), document) {
                    Ok(values) => {
                        proof {
                            assert(values_view(values@).len() == values@.len());
                        }
                        values.len() > 0
                    },
                    Err(_) => false,
                }
            };
            proof {
                assert(found == level_reached(path@, seen, level as int, document@));
            }
            if !found {
                proof {
                    one_level_fails(path@, seen, level as int, opens.len() as int, document@);
                }
                return false;
            }
        }
        proof {
            assert(level_reached(path@, seen, level as int, document@));
        }
        level += 1;
    }
    true
}

/// `t` with a `0` for each digit from `from` on.
pub open spec fn zeroed(t: Seq<char>, from: int) -> Seq<char> {
    Seq::new(
        t.len(),
        |i: int|
            if i >= from && digit(t[i]) {
                '0'
            } else {
                t[i]
            },
    )
}

/// `path` with a `0` for each digit from `from` on.
pub fn zero(path: &Vec<char>, from: usize) -> (zeros: Vec<char>)
    ensures
        zeros@ == zeroed(path@, from as int),
{
    let mut zeros: Vec<char> = Vec::new();
    let mut i: usize = 0;
    while i < path.len()
        invariant
            i <= path.len(),
            zeros@.len() == i,
            forall|k: int| 0 <= k < i ==> zeros@[k] == zeroed(path@, from as int)[k],
        decreases path.len() - i,
    {
        let c = path[i];
        if i >= from && 0x30 <= c as u32 && c as u32 <= 0x39 {
            zeros.push('0');
        } else {
            zeros.push(c);
        }
        i += 1;
    }
    proof {
        assert(zeros@ =~= zeroed(path@, from as int));
    }
    zeros
}

/// What the engine says of a path when it is asked to compile it.
pub enum Compiled {
    /// It compiles.
    Yes,
    /// It does not, with this message.
    No(String),
    /// The engine was not asked.
    Unasked,
}

/// What the engine says of `path` when it compiles it, as can be told from
/// what it selects in `null`: there it comes to no filter.
pub open spec fn compiling(path: Seq<char>) -> Option<Result<(), Seq<char>>> {
    if refused(path, JsonValue::Null) {
        None
    } else {
        Some(
            match path_query(path, JsonValue::Null) {
                Ok(_) => Ok(()),
                Err(message) => Err(message),
            },
        )
    }
}

/// Asks the engine whether `path` compiles.
pub fn compile(path: &Vec<char>) -> (said: Compiled)
    ensures
        match said {
            Compiled::Yes => compiling(path@) == Some(Ok::<(), Seq<char>>(())),
            Compiled::No(message) => compiling(path@) == Some(Err::<(), Seq<char>>(message@)),
            Compiled::Unasked => compiling(path@) is None,
        },
{
    let null = Json::Null;
    if refuses(path, &null) {
        return Compiled::Unasked;
    }
    let text = text_of(path, 0, path.len());
    proof {
        assert(path@.subrange(0, path.len() as int) =~= path@);
    }
    match select(text.as_str(), &null) {
        Ok(_) => Compiled::Yes,
        Err(message) => Compiled::No(message),
    }
}

/// `jsonpath::Selector::new` on `path`, then `Selector::find` on `document`,
/// which is handed over as a `serde_json::Value`. The contract claims that
/// what comes back depends on the path and on the document alone: the values
/// that the selector's iterator gives, in its order, or the message of the
/// error with which the path was refused. The engine aborts on a filter's
/// number that is too large for it, and when it comes to a filter from the
/// root that compares in order with a number: the paths of `refused` are
/// not handed to it.
#[verifier::external_body]
pub(crate) fn select(path: &str, document: &Json) -> (found: Result<Vec<Json>, String>)
    requires
        !refused(path@, document@),
    ensures
        match found {
            Ok(values) => path_query(path@, document@) == Ok::<Seq<JsonValue>, Seq<char>>(
                values_view(values@),
            ),
            Err(message) => path_query(path@, document@) == Err::<Seq<JsonValue>, Seq<char>>(
                message@,
            ),
        },
{
    let root = to_value(document);
    match jsonpath::Selector::new(path) {
        Ok(selector) => Ok(selector.find(&root).map(from_value).collect()),
        Err(error) => Err(format!("{}", error)),
    }
}

} // verus!
