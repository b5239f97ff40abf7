//! Kernel inspector: the symbol table (address <-> name), the traceable events
//! and functions, the per-target parameter types, and wildcard matching.

use bimap::BiBTreeMap;
use regex::Regex;
use vstd::prelude::*;
use vstd::string::*;

use crate::error::RetisError;
use crate::text::{after, before, chars_of, ends_with, find_char, has_suffix, same_text, slice_string, split_char, split_on};

verus! {

#[verifier::external_type_specification]
#[verifier::external_body]
#[verifier::reject_recursive_types(L)]
#[verifier::reject_recursive_types(R)]
pub struct ExBiBTreeMap<L, R>(BiBTreeMap<L, R>);

#[verifier::external_type_specification]
#[verifier::external_body]
pub struct ExRegex(Regex);

#[verifier::external_type_specification]
#[verifier::external_body]
pub struct ExRegexError(regex::Error);

/// The address -> name pairs that a symbol table holds.
pub uninterp spec fn symbol_pairs(m: BiBTreeMap<u64, String>) -> Map<u64, Seq<char>>;

/// Whether `pattern` is a regular expression that the regex engine accepts.
pub uninterp spec fn regex_compiles(pattern: Seq<char>) -> bool;

/// Whether the regular expression `pattern` matches somewhere in `text`.
pub uninterp spec fn regex_accepts(pattern: Seq<char>, text: Seq<char>) -> bool;

/// A bidirectional insert: the pairs that share the address or the name with
/// the new one are dropped.
pub open spec fn bi_insert(m: Map<u64, Seq<char>>, addr: u64, name: Seq<char>) -> Map<u64, Seq<char>> {
    Map::new(
        |a: u64| a == addr || (m.dom().contains(a) && m[a] != name),
        |a: u64| if a == addr { name } else { m[a] },
    )
}

/// The empty table.
pub open spec fn no_pairs() -> Map<u64, Seq<char>> {
    Map::empty()
}

/// Relies on bimap::BiBTreeMap::new: the table starts empty.
#[verifier::external_body]
fn table_new() -> (r: BiBTreeMap<u64, String>)
    ensures
        symbol_pairs(r) == no_pairs(),
{
    BiBTreeMap::new()
}

/// Relies on bimap::BiBTreeMap::insert: it removes the pairs holding either
/// value, then adds the new pair.
#[verifier::external_body]
fn table_insert(m: &mut BiBTreeMap<u64, String>, addr: u64, name: String)
    ensures
        symbol_pairs(*final(m)) == bi_insert(symbol_pairs(*old(m)), addr, name@),
{
    m.insert(addr, name);
}

/// Relies on bimap::BiBTreeMap::get_by_left: the name paired with `addr`.
#[verifier::external_body]
fn table_name(m: &BiBTreeMap<u64, String>, addr: u64) -> (r: Option<String>)
    ensures
        match r {
            Some(n) => symbol_pairs(*m).dom().contains(addr) && n@ == symbol_pairs(*m)[addr],
            None => !symbol_pairs(*m).dom().contains(addr),
        },
{
    m.get_by_left(&addr).cloned()
}

/// Relies on bimap::BiBTreeMap::get_by_right: the address paired with `name`.
#[verifier::external_body]
fn table_addr(m: &BiBTreeMap<u64, String>, name: &str) -> (r: Option<u64>)
    ensures
        match r {
            Some(a) => symbol_pairs(*m).dom().contains(a) && symbol_pairs(*m)[a] == name@,
            None => forall|a: u64| #[trigger]
                symbol_pairs(*m).dom().contains(a) ==> symbol_pairs(*m)[a] != name@,
        },
{
    m.get_by_right(name).copied()
}

/// Relies on bimap::BiBTreeMap::left_range and its next_back: the largest
/// address of the table that is at most `target`.
#[verifier::external_body]
fn table_floor(m: &BiBTreeMap<u64, String>, target: u64) -> (r: Option<u64>)
    ensures
        match r {
            Some(a) => symbol_pairs(*m).dom().contains(a) && a <= target && forall|b: u64| #[trigger]
                symbol_pairs(*m).dom().contains(b) && b <= target ==> b <= a,
            None => forall|b: u64| #[trigger] symbol_pairs(*m).dom().contains(b) ==> b > target,
        },
{
    m.left_range(..=target).next_back().map(|(a, _)| *a)
}

/// A compiled regular expression, with the text it was compiled from.
pub struct Pattern {
    source: String,
    re: Regex,
}

impl Pattern {
    pub closed spec fn source(&self) -> Seq<char> {
        self.source@
    }
}

/// Relies on regex::Regex::new: compiling succeeds exactly on the patterns the
/// engine accepts.
#[verifier::external_body]
fn regex_new(source: String) -> (r: Result<Pattern, regex::Error>)
    ensures
        r.is_ok() == regex_compiles(source@),
        r matches Ok(p) ==> p.source() == source@,
{
    match Regex::new(&source) {
        Ok(re) => Ok(Pattern { source, re }),
        Err(e) => Err(e),
    }
}

/// Relies on regex::Regex::is_match: whether the compiled pattern matches.
#[verifier::external_body]
fn regex_is_match(p: &Pattern, text: &str) -> (r: bool)
    ensures
        r == regex_accepts(p.source(), text@),
{
    p.re.is_match(text)
}


/// Value of a hexadecimal digit.
pub open spec fn hex_digit(c: char) -> Option<nat> {
    if '0' <= c && c <= '9' {
        Some((c as nat - '0' as nat) as nat)
    } else if 'a' <= c && c <= 'f' {
        Some((c as nat - 'a' as nat + 10) as nat)
    } else if 'A' <= c && c <= 'F' {
        Some((c as nat - 'A' as nat + 10) as nat)
    } else {
        None
    }
}

/// Value of a string of hexadecimal digits (any length, empty is zero).
pub open spec fn hex_nat(s: Seq<char>) -> Option<nat>
    decreases s.len(),
{
    if s.len() == 0 {
        Some(0)
    } else {
        match (hex_nat(s.drop_last()), hex_digit(s.last())) {
            (Some(v), Some(d)) => Some(v * 16 + d),
            _ => None,
        }
    }
}

/// A non-empty hexadecimal address that fits 64 bits.
pub open spec fn hex_value(s: Seq<char>) -> Option<u64> {
    match hex_nat(s) {
        Some(v) => if s.len() > 0 && v <= u64::MAX {
            Some(v as u64)
        } else {
            None
        },
        None => None,
    }
}

proof fn lemma_hex_nat_grows(s: Seq<char>, i: int)
    requires
        0 <= i <= s.len(),
        hex_nat(s) is Some,
    ensures
        hex_nat(s.subrange(0, i)) is Some,
        hex_nat(s.subrange(0, i))->0 <= hex_nat(s)->0,
    decreases s.len(),
{
    if i < s.len() {
        assert(s.drop_last().subrange(0, i) =~= s.subrange(0, i));
        lemma_hex_nat_grows(s.drop_last(), i);
    } else {
        assert(s.subrange(0, i) =~= s);
    }
}

pub fn hex_digit_exec(c: char) -> (r: Option<u64>)
    ensures
        match hex_digit(c) {
            Some(d) => r == Some(d as u64),
            None => r is None,
        },
{
    if '0' <= c && c <= '9' {
        Some((c as u32 - '0' as u32) as u64)
    } else if 'a' <= c && c <= 'f' {
        Some((c as u32 - 'a' as u32 + 10) as u64)
    } else if 'A' <= c && c <= 'F' {
        Some((c as u32 - 'A' as u32 + 10) as u64)
    } else {
        None
    }
}

/// Reads the hexadecimal address `v[from..to]`.
pub fn parse_hex(v: &Vec<char>, from: usize, to: usize) -> (r: Option<u64>)
    requires
        from <= to <= v@.len(),
    ensures
        r == hex_value(v@.subrange(from as int, to as int)),
{
    let ghost s = v@.subrange(from as int, to as int);
    if from == to {
        return None;
    }
    let mut acc: u64 = 0;
    let mut i: usize = from;
    while i < to
        invariant
            from <= i <= to <= v@.len(),
            s == v@.subrange(from as int, to as int),
            hex_nat(s.subrange(0, i - from)) == Some(acc as nat),
        decreases to - i,
    {
        assert(s.subrange(0, i - from + 1).drop_last() =~= s.subrange(0, i - from));
        assert(s.subrange(0, i - from + 1).last() == v@[i as int]);
        match hex_digit_exec(v[i]) {
            None => {
                proof {
                    if hex_nat(s) is Some {
                        lemma_hex_nat_grows(s, i - from + 1);
                    }
                }
                return None;
            },
            Some(d) => {
                if acc > (u64::MAX - d) / 16 {
                    proof {
                        if hex_nat(s) is Some {
                            lemma_hex_nat_grows(s, i - from + 1);
                        }
                    }
                    return None;
                }
                acc = acc * 16 + d;
            },
        }
        i += 1;
    }
    assert(s.subrange(0, to - from) =~= s);
    Some(acc)
}

/// A new vector holding `v[from..to]`.
pub fn sub_chars(v: &Vec<char>, from: usize, to: usize) -> (r: Vec<char>)
    requires
        from <= to <= v@.len(),
    ensures
        r@ == v@.subrange(from as int, to as int),
{
    let mut r: Vec<char> = Vec::new();
    let mut i: usize = from;
    while i < to
        invariant
            from <= i <= to <= v@.len(),
            r@ == v@.subrange(from as int, i as int),
        decreases to - i,
    {
        r.push(v[i]);
        i += 1;
    }
    r
}

/// The address and name a symbol-table line `ADDR TYPE NAME[\tMODULE]` holds.
pub open spec fn symbol_line(l: Seq<char>) -> Option<(u64, Seq<char>)> {
    match after(l, ' ') {
        Some(rest1) => match after(rest1, ' ') {
            Some(rest2) => match hex_value(before(l, ' ')) {
                Some(addr) => Some((addr, before(before(rest2, ' '), '\t'))),
                None => None,
            },
            None => None,
        },
        None => None,
    }
}

/// Parses one symbol-table line into its address and name.
pub fn parse_symbol_line(line: &str) -> (r: Result<(u64, String), RetisError>)
    ensures
        match symbol_line(line@) {
            Some((a, n)) => r matches Ok((ra, rn)) && ra == a && rn@ == n,
            None => r == Err::<(u64, String), RetisError>(RetisError::InvalidSymbolLine),
        },
{
    let v = chars_of(line);
    let i1 = match find_char(&v, ' ') {
        Some(i) => i,
        None => return Err(RetisError::InvalidSymbolLine),
    };
    let rest1 = sub_chars(&v, i1 + 1, v.len());
    let i2 = match find_char(&rest1, ' ') {
        Some(i) => i,
        None => return Err(RetisError::InvalidSymbolLine),
    };
    let start = i1 + 1 + i2 + 1;
    let rest2 = sub_chars(&v, start, v.len());
    assert(rest2@ =~= rest1@.subrange(i2 + 1, rest1@.len() as int));
    let addr = match parse_hex(&v, 0, i1) {
        Some(a) => a,
        None => return Err(RetisError::InvalidSymbolLine),
    };
    assert(v@.subrange(0, i1 as int) =~= before(line@, ' '));
    let third_len = match find_char(&rest2, ' ') {
        Some(i) => i,
        None => rest2.len(),
    };
    let third = sub_chars(&rest2, 0, third_len);
    assert(third@ =~= before(rest2@, ' '));
    let name_len = match find_char(&third, '\t') {
        Some(i) => i,
        None => third.len(),
    };
    assert(third@.subrange(0, name_len as int) =~= before(third@, '\t'));
    assert(v@.subrange(start as int, start + name_len) =~= third@.subrange(0, name_len as int));
    let name = slice_string(line, start, start + name_len);
    Ok((addr, name))
}

/// The symbol table that the lines give, read from the last line to the first
/// so that, of two lines sharing an address or a name, the earlier one stays.
pub open spec fn table_of(lines: Seq<Seq<char>>) -> Option<Map<u64, Seq<char>>>
    decreases lines.len(),
{
    if lines.len() == 0 {
        Some(no_pairs())
    } else {
        match (table_of(lines.drop_first()), symbol_line(lines[0])) {
            (Some(t), Some((a, n))) => Some(bi_insert(t, a, n)),
            _ => None,
        }
    }
}

/// The views of a list of strings.
pub open spec fn texts(v: Seq<String>) -> Seq<Seq<char>> {
    v.map_values(|s: String| s@)
}

pub proof fn lemma_texts_push(s: Seq<String>, x: String)
    ensures
        texts(s.push(x)) == texts(s).push(x@),
{
    assert(texts(s.push(x)) =~= texts(s).push(x@));
}

/// Argument types of the first entry describing `target`.
pub open spec fn params_of(types: Seq<(Seq<char>, Seq<Seq<char>>)>, target: Seq<char>) -> Option<Seq<Seq<char>>>
    decreases types.len(),
{
    if types.len() == 0 {
        None
    } else if types[0].0 == target {
        Some(types[0].1)
    } else {
        params_of(types.drop_first(), target)
    }
}

/// The first word of each line, as the traceable lists hold them.
pub open spec fn first_words(lines: Seq<Seq<char>>) -> Seq<Seq<char>> {
    lines.map_values(|l: Seq<char>| before(l, ' '))
}

/// What an event name `group:name` ends with.
pub open spec fn event_suffix(name: Seq<char>) -> Seq<char> {
    seq![':'] + name
}

/// Whether `name` is one of `list`.
pub open spec fn listed(list: Seq<Seq<char>>, name: Seq<char>) -> bool {
    exists|i: int| 0 <= i < list.len() && list[i] == name
}

/// The regular expression a wildcard target stands for, `*` becoming `.*`.
pub open spec fn glob_body(t: Seq<char>) -> Seq<char>
    decreases t.len(),
{
    if t.len() == 0 {
        Seq::empty()
    } else if t.last() == '*' {
        glob_body(t.drop_last()) + ".*"@
    } else {
        glob_body(t.drop_last()).push(t.last())
    }
}

/// The wildcard target as a regular expression anchored at both ends.
pub open spec fn glob_regex(t: Seq<char>) -> Seq<char> {
    "^"@ + glob_body(t) + "$"@
}

/// The entries of `list` that `pattern` matches, in list order, each once.
pub open spec fn matching(list: Seq<Seq<char>>, pattern: Seq<char>) -> Seq<Seq<char>>
    decreases list.len(),
{
    if list.len() == 0 {
        Seq::empty()
    } else if regex_accepts(pattern, list.last()) && !matching(list.drop_last(), pattern).contains(list.last()) {
        matching(list.drop_last(), pattern).push(list.last())
    } else {
        matching(list.drop_last(), pattern)
    }
}

/// Builds the anchored regular expression of a wildcard target.
pub fn glob_to_regex(target: &str) -> (r: String)
    ensures
        r@ == glob_regex(target@),
{
    let n = target.unicode_len();
    let mut r = String::from_str("^");
    let mut i: usize = 0;
    while i < n
        invariant
            n == target@.len(),
            i <= n,
            r@ == "^"@ + glob_body(target@.subrange(0, i as int)),
        decreases n - i,
    {
        let ghost prev = r@;
        assert(target@.subrange(0, i + 1).drop_last() =~= target@.subrange(0, i as int));
        if target.get_char(i) == '*' {
            r.append(".*");
            assert(r@ =~= "^"@ + glob_body(target@.subrange(0, i + 1)));
        } else {
            r.append(target.substring_char(i, i + 1));
            assert(r@ =~= "^"@ + glob_body(target@.subrange(0, i + 1)));
        }
        i += 1;
    }
    assert(target@.subrange(0, n as int) =~= target@);
    r.append("$");
    assert(r@ =~= glob_regex(target@));
    r
}

/// Parameter types of one traceable target, as the type information gives them.
pub struct TargetTypes {
    /// Attach name of the target: `func` or `group:event`.
    pub target: String,
    /// Declared type of each argument, in order (`struct sk_buff *`, ...).
    pub params: Vec<String>,
}

impl TargetTypes {
    /// Reads `target<TAB>type<TAB>type...`, one line of a type-information
    /// listing.
    pub fn from_line(line: &str) -> (r: Result<TargetTypes, RetisError>)
        ensures
            match r {
                Ok(t) => split_on(line@, '\t').len() > 0 && t.target@ == split_on(line@, '\t')[0]
                    && texts(t.params@) == split_on(line@, '\t').drop_first() && t.target@.len() > 0,
                Err(e) => e == RetisError::MissingTypeInfo && (split_on(line@, '\t').len() == 0
                    || split_on(line@, '\t')[0].len() == 0),
            },
    {
        let mut parts = split_char(line, '\t');
        if parts.len() == 0 {
            return Err(RetisError::MissingTypeInfo);
        }
        let ghost all = parts@.map_values(|x: String| x@);
        let target = parts.remove(0);
        assert(parts@.map_values(|x: String| x@) =~= all.drop_first());
        if target.unicode_len() == 0 {
            return Err(RetisError::MissingTypeInfo);
        }
        assert(texts(parts@) =~= parts@.map_values(|x: String| x@));
        Ok(TargetTypes { target, params: parts })
    }
}

/// Provides what probe resolution needs to know of the running kernel.
pub struct KernelInspector {
    symbols: BiBTreeMap<u64, String>,
    traceable_events: Option<Vec<String>>,
    traceable_funcs: Option<Vec<String>>,
    types: Vec<TargetTypes>,
}

/// The first word of each line.
pub fn file_to_list(lines: &Vec<String>) -> (r: Vec<String>)
    ensures
        texts(r@) == first_words(texts(lines@)),
{
    let mut r: Vec<String> = Vec::new();
    let mut i: usize = 0;
    while i < lines.len()
        invariant
            i <= lines@.len(),
            texts(r@) =~= first_words(texts(lines@)).subrange(0, i as int),
        decreases lines.len() - i,
    {
        let v = chars_of(lines[i].as_str());
        let end = match find_char(&v, ' ') {
            Some(k) => k,
            None => v.len(),
        };
        let w = slice_string(lines[i].as_str(), 0, end);
        assert(w@ == before(lines@[i as int]@, ' ')) by {
            if end == v.len() {
                assert(v@.subrange(0, end as int) =~= v@);
            }
        }
        proof {
            lemma_texts_push(r@, w);
        }
        r.push(w);
        assert(texts(r@) =~= first_words(texts(lines@)).subrange(0, i + 1));
        i += 1;
    }
    r
}

/// Whether no entry appears twice.
pub open spec fn no_repeat(s: Seq<Seq<char>>) -> bool {
    forall|a: int, b: int| 0 <= a < b < s.len() ==> s[a] != s[b]
}

/// A name listed twice is matched once.
pub proof fn lemma_matching_no_repeat(list: Seq<Seq<char>>, pattern: Seq<char>)
    ensures
        no_repeat(matching(list, pattern)),
    decreases list.len(),
{
    if list.len() > 0 {
        lemma_matching_no_repeat(list.drop_last(), pattern);
        let m = matching(list.drop_last(), pattern);
        if regex_accepts(pattern, list.last()) && !m.contains(list.last()) {
            assert forall|a: int, b: int| 0 <= a < b < m.len() + 1 implies m.push(list.last())[a] != m.push(
                list.last(),
            )[b] by {
                if b == m.len() {
                    assert(m[a] != list.last());
                }
            }
        }
    }
}

/// Whether `name` is one of `list`.
fn list_contains(list: &Vec<String>, name: &str) -> (r: bool)
    ensures
        r == listed(texts(list@), name@),
{
    let mut i: usize = 0;
    while i < list.len()
        invariant
            i <= list@.len(),
            forall|j: int| 0 <= j < i ==> texts(list@)[j] != name@,
        decreases list.len() - i,
    {
        if same_text(list[i].as_str(), name) {
            assert(texts(list@)[i as int] == name@);
            return true;
        }
        i += 1;
    }
    false
}

/// The entries of `list` that `p` matches, in list order.
fn list_matching(list: &Vec<String>, p: &Pattern) -> (r: Vec<String>)
    ensures
        texts(r@) == matching(texts(list@), p.source()),
{
    let mut r: Vec<String> = Vec::new();
    let mut i: usize = 0;
    while i < list.len()
        invariant
            i <= list@.len(),
            texts(r@) =~= matching(texts(list@).subrange(0, i as int), p.source()),
        decreases list.len() - i,
    {
        assert(texts(list@).subrange(0, i + 1).drop_last() =~= texts(list@).subrange(0, i as int));
        if regex_is_match(p, list[i].as_str()) && !list_contains(&r, list[i].as_str()) {
            let c = list[i].clone();
            proof {
                lemma_texts_push(r@, c);
            }
            r.push(c);
        } else {
            proof {
                if regex_accepts(p.source(), list@[i as int]@) {
                    let j = choose|j: int| 0 <= j < texts(r@).len() && texts(r@)[j] == list@[i as int]@;
                    assert(texts(r@).contains(list@[i as int]@));
                }
            }
        }
        i += 1;
    }
    assert(texts(list@).subrange(0, list@.len() as int) =~= texts(list@));
    r
}

impl KernelInspector {
    /// Address -> name pairs of the symbol table.
    pub closed spec fn table(&self) -> Map<u64, Seq<char>> {
        symbol_pairs(self.symbols)
    }

    /// Traceable events, when known.
    pub closed spec fn events(&self) -> Option<Seq<Seq<char>>> {
        match self.traceable_events {
            Some(v) => Some(texts(v@)),
            None => None,
        }
    }

    /// Traceable functions, when known.
    pub closed spec fn funcs(&self) -> Option<Seq<Seq<char>>> {
        match self.traceable_funcs {
            Some(v) => Some(texts(v@)),
            None => None,
        }
    }

    /// Argument types of each described target, in the order given.
    pub closed spec fn types(&self) -> Seq<(Seq<char>, Seq<Seq<char>>)> {
        self.types@.map_values(|t: TargetTypes| (t.target@, texts(t.params@)))
    }

    /// Builds the inspector from the symbol-table lines, the traceable events
    /// and functions lines (when available) and the type information.
    pub fn new(
        kallsyms: &Vec<String>,
        events: Option<&Vec<String>>,
        funcs: Option<&Vec<String>>,
        types: Vec<TargetTypes>,
    ) -> (r: Result<KernelInspector, RetisError>)
        ensures
            match table_of(texts(kallsyms@)) {
                Some(t) => r matches Ok(ins) && ins.table() == t
                    && ins.events() == (match events {
                        Some(l) => Some(first_words(texts(l@))),
                        None => None,
                    })
                    && ins.funcs() == (match funcs {
                        Some(l) => Some(first_words(texts(l@))),
                        None => None,
                    })
                    && ins.types() == types@.map_values(|t: TargetTypes| (t.target@, texts(t.params@))),
                None => r == Err::<KernelInspector, RetisError>(RetisError::InvalidSymbolLine),
            },
    {
        let mut symbols = table_new();
        let n = kallsyms.len();
        let mut i: usize = n;
        while i > 0
            invariant
                n == kallsyms@.len(),
                i <= n,
                table_of(texts(kallsyms@).subrange(i as int, n as int)) == Some(symbol_pairs(symbols)),
            decreases i,
        {
            let ghost prev = texts(kallsyms@).subrange(i as int, n as int);
            assert(texts(kallsyms@).subrange(i - 1, n as int).drop_first() =~= prev);
            match parse_symbol_line(kallsyms[i - 1].as_str()) {
                Ok((addr, name)) => {
                    table_insert(&mut symbols, addr, name);
                },
                Err(e) => {
                    proof {
                        lemma_table_of_fails(texts(kallsyms@), (i - 1) as int);
                    }
                    return Err(e);
                },
            }
            i -= 1;
        }
        assert(texts(kallsyms@).subrange(0, n as int) =~= texts(kallsyms@));
        let traceable_events = match events {
            Some(l) => Some(file_to_list(l)),
            None => None,
        };
        let traceable_funcs = match funcs {
            Some(l) => Some(file_to_list(l)),
            None => None,
        };
        Ok(KernelInspector { symbols, traceable_events, traceable_funcs, types })
    }

    /// The symbol name at `addr`.
    pub fn get_symbol_name(&self, addr: u64) -> (r: Result<String, RetisError>)
        ensures
            self.table().dom().contains(addr) ==> (r matches Ok(n) && n@ == self.table()[addr]),
            !self.table().dom().contains(addr) ==> r == Err::<String, RetisError>(RetisError::UnknownAddress),
    {
        match table_name(&self.symbols, addr) {
            Some(n) => Ok(n),
            None => Err(RetisError::UnknownAddress),
        }
    }

    /// The address of the symbol `name`.
    pub fn get_symbol_addr(&self, name: &str) -> (r: Result<u64, RetisError>)
        ensures
            match r {
                Ok(a) => self.table().dom().contains(a) && self.table()[a] == name@,
                Err(e) => e == RetisError::UnknownSymbol && forall|a: u64| #[trigger]
                    self.table().dom().contains(a) ==> self.table()[a] != name@,
            },
    {
        match table_addr(&self.symbols, name) {
            Some(a) => Ok(a),
            None => Err(RetisError::UnknownSymbol),
        }
    }

    /// The address of the nearest symbol at or below `target`.
    pub fn find_nearest_symbol(&self, target: u64) -> (r: Result<u64, RetisError>)
        ensures
            match r {
                Ok(a) => self.table().dom().contains(a) && a <= target && forall|b: u64| #[trigger]
                    self.table().dom().contains(b) && b <= target ==> b <= a,
                Err(e) => e == RetisError::NoSymbolNear && forall|b: u64| #[trigger]
                    self.table().dom().contains(b) ==> b > target,
            },
    {
        match table_floor(&self.symbols, target) {
            Some(a) => Ok(a),
            None => Err(RetisError::NoSymbolNear),
        }
    }

    /// Name of the nearest symbol at or below `addr`, and how far `addr` is
    /// past it.
    pub fn get_name_offt_from_addr_near(&self, addr: u64) -> (r: Result<(String, u64), RetisError>)
        ensures
            match r {
                Ok((n, off)) => self.table().dom().contains((addr - off) as u64) && off <= addr
                    && n@ == self.table()[(addr - off) as u64] && forall|b: u64| #[trigger]
                    self.table().dom().contains(b) && b <= addr ==> b <= addr - off,
                Err(e) => e == RetisError::NoSymbolNear && forall|b: u64| #[trigger]
                    self.table().dom().contains(b) ==> b > addr,
            },
    {
        let sym_addr = self.find_nearest_symbol(addr)?;
        let name = self.get_symbol_name(sym_addr)?;
        Ok((name, addr - sym_addr))
    }

    /// Whether the event is traceable; `None` when this cannot be known.
    pub fn is_event_traceable(&self, name: &str) -> (r: Option<bool>)
        ensures
            r == (match self.events() {
                Some(l) => Some(listed(l, name@)),
                None => None,
            }),
    {
        match &self.traceable_events {
            Some(l) => Some(list_contains(l, name)),
            None => None,
        }
    }

    /// Whether the function is traceable; `None` when this cannot be known.
    pub fn is_function_traceable(&self, name: &str) -> (r: Option<bool>)
        ensures
            r == (match self.funcs() {
                Some(l) => Some(listed(l, name@)),
                None => None,
            }),
    {
        match &self.traceable_funcs {
            Some(l) => Some(list_contains(l, name)),
            None => None,
        }
    }

    /// The first traceable event of the form `group:name`.
    pub fn find_matching_event(&self, name: &str) -> (r: Option<String>)
        ensures
            match self.events() {
                Some(l) => match r {
                    Some(e) => listed(l, e@) && has_suffix(e@, event_suffix(name@)),
                    None => forall|j: int| 0 <= j < l.len() ==> !has_suffix(#[trigger] l[j], event_suffix(name@)),
                },
                None => r is None,
            },
    {
        let list = match &self.traceable_events {
            Some(l) => l,
            None => return None,
        };
        let mut suffix: Vec<char> = Vec::new();
        suffix.push(':');
        let mut tail = chars_of(name);
        suffix.append(&mut tail);
        assert(suffix@ =~= event_suffix(name@));
        let mut i: usize = 0;
        while i < list.len()
            invariant
                i <= list@.len(),
                self.events() == Some(texts(list@)),
                suffix@ == event_suffix(name@),
                forall|j: int| 0 <= j < i ==> !has_suffix(#[trigger] texts(list@)[j], event_suffix(name@)),
            decreases list.len() - i,
        {
            let v = chars_of(list[i].as_str());
            if ends_with(&v, &suffix) {
                let e = list[i].clone();
                assert(texts(list@)[i as int] == e@);
                assert(has_suffix(e@, event_suffix(name@)));
                let ghost l = texts(list@);
                assert(self.events() == Some(l));
                assert(forall|j: int| 0 <= j < i ==> !has_suffix(#[trigger] l[j], event_suffix(name@)));
                assert(l[i as int] == e@);
                return Some(e);
            }
            i += 1;
        }
        None
    }

    /// The argument types of `target`, from the first entry describing it.
    pub fn target_params(&self, target: &str) -> (r: Option<Vec<String>>)
        ensures
            match params_of(self.types(), target@) {
                Some(p) => r matches Some(v) && texts(v@) == p,
                None => r is None,
            },
    {
        let ghost all = self.types();
        assert(all.subrange(0, all.len() as int) =~= all);
        let mut i: usize = 0;
        while i < self.types.len()
            invariant
                i <= self.types@.len(),
                all == self.types(),
                params_of(all, target@) == params_of(all.subrange(i as int, all.len() as int), target@),
            decreases self.types.len() - i,
        {
            assert(all.subrange(i as int, all.len() as int).drop_first()
                =~= all.subrange(i + 1, all.len() as int));
            if same_text(self.types[i].target.as_str(), target) {
                let p = clone_strings(&self.types[i].params);
                return Some(p);
            }
            i += 1;
        }
        None
    }

    /// Traceable functions matching the wildcard target, in list order.
    pub fn matching_functions(&self, target: &str) -> (r: Result<Vec<String>, RetisError>)
        ensures
            match self.funcs() {
                Some(l) => if regex_compiles(glob_regex(target@)) {
                    r matches Ok(v) && texts(v@) == matching(l, glob_regex(target@))
                } else {
                    r == Err::<Vec<String>, RetisError>(RetisError::InvalidPattern)
                },
                None => r == Err::<Vec<String>, RetisError>(RetisError::NoTraceableFunctions),
            },
    {
        let list = match &self.traceable_funcs {
            Some(l) => l,
            None => return Err(RetisError::NoTraceableFunctions),
        };
        match regex_new(glob_to_regex(target)) {
            Ok(p) => Ok(list_matching(list, &p)),
            Err(_) => Err(RetisError::InvalidPattern),
        }
    }

    /// Traceable events matching the wildcard target, in list order.
    pub fn matching_events(&self, target: &str) -> (r: Result<Vec<String>, RetisError>)
        ensures
            match self.events() {
                Some(l) => if regex_compiles(glob_regex(target@)) {
                    r matches Ok(v) && texts(v@) == matching(l, glob_regex(target@))
                } else {
                    r == Err::<Vec<String>, RetisError>(RetisError::InvalidPattern)
                },
                None => r == Err::<Vec<String>, RetisError>(RetisError::NoTraceableEvents),
            },
    {
        let list = match &self.traceable_events {
            Some(l) => l,
            None => return Err(RetisError::NoTraceableEvents),
        };
        match regex_new(glob_to_regex(target)) {
            Ok(p) => Ok(list_matching(list, &p)),
            Err(_) => Err(RetisError::InvalidPattern),
        }
    }
}

proof fn lemma_table_of_fails(lines: Seq<Seq<char>>, k: int)
    requires
        0 <= k < lines.len(),
        symbol_line(lines[k]) is None,
    ensures
        table_of(lines) is None,
    decreases k,
{
    if k > 0 {
        lemma_table_of_fails(lines.drop_first(), k - 1);
    }
}

/// A copy of a list of strings.
pub fn clone_strings(v: &Vec<String>) -> (r: Vec<String>)
    ensures
        texts(r@) == texts(v@),
{
    let mut r: Vec<String> = Vec::new();
    let mut i: usize = 0;
    while i < v.len()
        invariant
            i <= v@.len(),
            texts(r@) =~= texts(v@).subrange(0, i as int),
        decreases v.len() - i,
    {
        let c = v[i].clone();
        proof {
            lemma_texts_push(r@, c);
        }
        r.push(c);
        assert(texts(r@) =~= texts(v@).subrange(0, i + 1));
        i += 1;
    }
    assert(texts(v@).subrange(0, v@.len() as int) =~= texts(v@));
    r
}

} // verus!
