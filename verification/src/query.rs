//! The structured multi-field query parser.
//!
//! One line of prompt text is split, left to right and in a single pass, into
//! per-column sub-patterns: `%name:` selects a column, `"` toggles quoting,
//! `\` escapes the two reserved symbols `%` and `"`, and a bare space flushes
//! the pending word into the selected column (or the primary one). The
//! mathematical model is the transition function [`step`] folded over the
//! input by [`run`]; [`parse_query`] is proved to implement it exactly.
use vstd::prelude::*;
use vstd::string::*;

verus! {

/// The parser's full state between two characters of the input.
pub ghost struct ParseState {
    /// A backslash has been seen and applies to the next character.
    pub escaped: bool,
    /// Inside a double-quoted stretch.
    pub quoted: bool,
    /// Between the `%` that opened a field reference and its `:`.
    pub in_field: bool,
    /// The column selected by the last resolved `%name:`, if any.
    pub field: Option<int>,
    /// Characters collected since the last flush.
    pub text: Seq<char>,
    /// Accumulated sub-pattern of each column, by column index.
    pub patterns: Seq<Option<Seq<char>>>,
}

/// The state before any character has been read: `ncols` empty columns.
pub open spec fn init_state(ncols: nat) -> ParseState {
    ParseState {
        escaped: false,
        quoted: false,
        in_field: false,
        field: None,
        text: Seq::empty(),
        patterns: Seq::new(ncols, |i: int| None),
    }
}

/// The first column whose name is exactly `text`, if any.
pub open spec fn find_name(names: Seq<Seq<char>>, text: Seq<char>) -> Option<int>
    decreases names.len(),
{
    if names.len() == 0 {
        None
    } else if names[0] == text {
        Some(0int)
    } else {
        match find_name(names.drop_first(), text) {
            Some(i) => Some(i + 1),
            None => None,
        }
    }
}

/// The column a flush goes to: the selected field, or the primary column.
pub open spec fn flush_key(field: Option<int>, primary: int) -> int {
    match field {
        Some(j) => j,
        None => primary,
    }
}

/// A repeated flush into the same column concatenates with a single space.
pub open spec fn merged_pattern(existing: Option<Seq<char>>, text: Seq<char>) -> Seq<char> {
    match existing {
        Some(p) => p + seq![' '] + text,
        None => text,
    }
}

/// The column patterns after flushing `text` into column `key`.
pub open spec fn flush_patterns(
    ps: Seq<Option<Seq<char>>>,
    key: int,
    text: Seq<char>,
) -> Seq<Option<Seq<char>>> {
    ps.update(key, Some(merged_pattern(ps[key], text)))
}

/// The whole state after a flush: pending text and field selection are spent.
pub open spec fn flushed(st: ParseState, primary: int) -> ParseState {
    ParseState {
        field: None,
        text: Seq::empty(),
        patterns: flush_patterns(st.patterns, flush_key(st.field, primary), st.text),
        ..st
    }
}

/// One character of input applied to the parser state.
pub open spec fn step(names: Seq<Seq<char>>, primary: int, st: ParseState, ch: char) -> ParseState {
    if ch == '\\' {
        ParseState { escaped: !st.escaped, ..st }
    } else if st.escaped {
        let t = if ch != '%' && ch != '"' {
            st.text.push('\\').push(ch)
        } else {
            st.text.push(ch)
        };
        ParseState { escaped: false, text: t, ..st }
    } else if ch == '"' {
        ParseState { quoted: !st.quoted, ..st }
    } else if ch == ' ' && st.quoted {
        ParseState { text: st.text.push('\\').push(' '), ..st }
    } else if (ch == '%' || ch == ':') && st.quoted {
        ParseState { text: st.text.push(ch), ..st }
    } else if (ch == '%' || ch == ' ') && st.text.len() > 0 {
        ParseState { in_field: ch == '%', ..flushed(st, primary) }
    } else if ch == '%' {
        ParseState { in_field: true, ..st }
    } else if ch == ' ' {
        st
    } else if ch == ':' && st.in_field {
        ParseState { field: find_name(names, st.text), text: Seq::empty(), in_field: false, ..st }
    } else {
        ParseState { text: st.text.push(ch), ..st }
    }
}

/// The parser state after reading all of `input`.
pub open spec fn run(names: Seq<Seq<char>>, primary: int, input: Seq<char>) -> ParseState
    decreases input.len(),
{
    if input.len() == 0 {
        init_state(names.len())
    } else {
        step(names, primary, run(names, primary, input.drop_last()), input.last())
    }
}

/// End of input: pending non-field text is flushed into the current column;
/// a dangling `%name` with no `:` yet is dropped entirely.
pub open spec fn finish(st: ParseState, primary: int) -> Seq<Option<Seq<char>>> {
    if !st.in_field && st.text.len() > 0 {
        flushed(st, primary).patterns
    } else {
        st.patterns
    }
}

/// What `parse_query` returns: the per-column sub-patterns of `input`.
pub open spec fn spec_parse_query(
    names: Seq<Seq<char>>,
    primary: int,
    input: Seq<char>,
) -> Seq<Option<Seq<char>>> {
    finish(run(names, primary, input), primary)
}

/// The spec-level image of an executable field selection.
pub open spec fn opt_index(field: Option<usize>) -> Option<int> {
    match field {
        Some(j) => Some(j as int),
        None => None,
    }
}

/// A parsed query: for each column, its accumulated sub-pattern, if any.
pub struct Query {
    /// The column names the query was parsed against.
    pub names: Vec<String>,
    /// The sub-pattern of each column, indexed like `names`.
    pub patterns: Vec<Option<String>>,
}

impl View for Query {
    type V = Seq<Option<Seq<char>>>;

    open spec fn view(&self) -> Seq<Option<Seq<char>>> {
        self.patterns.deep_view()
    }
}

impl Query {
    /// One pattern slot per column.
    pub open spec fn wf(&self) -> bool {
        self.names@.len() == self.patterns@.len()
    }

    /// The column names, as sequences of characters.
    pub open spec fn names_view(&self) -> Seq<Seq<char>> {
        self.names.deep_view()
    }

    /// The sub-pattern of the first column called `name`, if that column
    /// exists and the query assigned it one.
    pub open spec fn spec_get(&self, name: Seq<char>) -> Option<Seq<char>> {
        match find_name(self.names_view(), name) {
            Some(i) => self@[i],
            None => None,
        }
    }

    /// An empty query over the given columns: no column has a pattern.
    pub fn empty(column_names: &Vec<String>) -> (q: Query)
        ensures
            q.wf(),
            q.names_view() == column_names.deep_view(),
            q@ =~= Seq::new(column_names@.len() as nat, |i: int| None::<Seq<char>>),
    {
        let names = clone_names(column_names);
        let patterns = none_patterns(column_names.len());
        proof {
            assert(patterns.deep_view() =~= Seq::new(
                column_names@.len() as nat,
                |i: int| None::<Seq<char>>,
            ));
        }
        Query { names, patterns }
    }

    /// The pattern assigned to the first column called `name`, if any.
    pub fn get(&self, name: &str) -> (r: Option<&String>)
        requires
            self.wf(),
        ensures
            match r {
                Some(p) => self.spec_get(name@) == Some(p@),
                None => self.spec_get(name@) is None,
            },
    {
        match resolve_name(&self.names, name) {
            Some(i) => {
                match &self.patterns[i] {
                    Some(p) => Some(p),
                    None => None,
                }
            },
            None => None,
        }
    }
}

/// Compares two string slices character by character.
pub fn str_eq(a: &str, b: &str) -> (r: bool)
    ensures
        r == (a@ == b@),
{
    let alen = a.unicode_len();
    let blen = b.unicode_len();
    if alen != blen {
        return false;
    }
    let mut i: usize = 0;
    while i < alen
        invariant
            i <= alen,
            alen as nat == a@.len(),
            alen as nat == b@.len(),
            forall|j: int| 0 <= j < i ==> a@[j] == b@[j],
        decreases alen - i,
    {
        if a.get_char(i) != b.get_char(i) {
            return false;
        }
        i += 1;
    }
    proof {
        assert(a@ =~= b@);
    }
    true
}

/// Looks `text` up in the column list, returning the first match's index.
fn resolve_name(column_names: &Vec<String>, text: &str) -> (r: Option<usize>)
    ensures
        opt_index(r) == find_name(column_names.deep_view(), text@),
        r matches Some(i) ==> i < column_names@.len(),
{
    let n = column_names.len();
    let mut i: usize = 0;
    while i < n
        invariant
            i <= n,
            n == column_names@.len(),
            forall|j: int| 0 <= j < i ==> column_names.deep_view()[j] != text@,
        decreases n - i,
    {
        if str_eq(column_names[i].as_str(), text) {
            proof {
                lemma_find_name_hit(column_names.deep_view(), text@, i as int);
            }
            return Some(i);
        }
        i += 1;
    }
    proof {
        lemma_find_name_miss(column_names.deep_view(), text@);
    }
    None
}

/// If the first match in `names` stands at `i`, `find_name` returns `i`.
proof fn lemma_find_name_hit(names: Seq<Seq<char>>, text: Seq<char>, i: int)
    requires
        0 <= i < names.len(),
        names[i] == text,
        forall|j: int| 0 <= j < i ==> names[j] != text,
    ensures
        find_name(names, text) == Some(i),
    decreases names.len(),
{
    if i == 0 {
    } else {
        assert(names[0] != text);
        lemma_find_name_hit(names.drop_first(), text, i - 1);
    }
}

/// If nothing in `names` equals `text`, `find_name` finds nothing.
proof fn lemma_find_name_miss(names: Seq<Seq<char>>, text: Seq<char>)
    requires
        forall|j: int| 0 <= j < names.len() ==> names[j] != text,
    ensures
        find_name(names, text) is None,
    decreases names.len(),
{
    if names.len() > 0 {
        lemma_find_name_miss(names.drop_first(), text);
    }
}

/// A found name always lies inside the list and matches `text`.
pub proof fn lemma_find_name_range(names: Seq<Seq<char>>, text: Seq<char>)
    ensures
        find_name(names, text) matches Some(i) ==> 0 <= i < names.len() && names[i] == text,
    decreases names.len(),
{
    if names.len() > 0 && names[0] != text {
        lemma_find_name_range(names.drop_first(), text);
    }
}

/// A list's deep view is its elementwise deep view.
pub proof fn lemma_vec_deep_view<T: DeepView>(v: Vec<T>)
    ensures
        v.deep_view().len() == v@.len(),
        forall|k: int| 0 <= k < v@.len() ==> #[trigger] v.deep_view()[k] == v@[k].deep_view(),
{
}

/// Relies on `String::push`: appends the given character to the end.
#[verifier::external_body]
fn push_char(s: &mut String, c: char)
    ensures
        final(s)@ == old(s)@.push(c),
{
    s.push(c);
}

/// A copy of the column-name list.
fn clone_names(column_names: &Vec<String>) -> (r: Vec<String>)
    ensures
        r.deep_view() == column_names.deep_view(),
        r@.len() == column_names@.len(),
{
    let n = column_names.len();
    let mut r: Vec<String> = Vec::new();
    let mut i: usize = 0;
    while i < n
        invariant
            i <= n,
            n == column_names@.len(),
            r@.len() == i,
            r.deep_view() =~= column_names.deep_view().take(i as int),
        decreases n - i,
    {
        r.push(column_names[i].clone());
        proof {
            assert(r.deep_view() =~= column_names.deep_view().take(i + 1));
        }
        i += 1;
    }
    proof {
        assert(r.deep_view() =~= column_names.deep_view());
    }
    r
}

/// A pattern list of `n` empty slots.
fn none_patterns(n: usize) -> (r: Vec<Option<String>>)
    ensures
        r@.len() == n,
        r.deep_view() =~= Seq::new(n as nat, |i: int| None::<Seq<char>>),
{
    let mut r: Vec<Option<String>> = Vec::new();
    let mut i: usize = 0;
    while i < n
        invariant
            i <= n,
            r@.len() == i,
            r.deep_view() =~= Seq::new(i as nat, |k: int| None::<Seq<char>>),
        decreases n - i,
    {
        let ghost r0 = r;
        r.push(None);
        proof {
            lemma_vec_deep_view(r0);
            lemma_vec_deep_view(r);
            assert(r@ == r0@.push(None));
            assert forall|k: int| 0 <= k < r@.len() implies r.deep_view()[k]
                == None::<Seq<char>> by {
                assert(r.deep_view()[k] == r@[k].deep_view());
                if k < i as int {
                    assert(r@[k] == r0@[k]);
                    assert(r0.deep_view()[k] == None::<Seq<char>>);
                } else {
                    assert(r@[k] is None);
                }
            }
            assert(r.deep_view() =~= Seq::new((i + 1) as nat, |k: int| None::<Seq<char>>));
        }
        i += 1;
    }
    r
}

/// Flushes the pending `text` into the column selected by `field`, or into
/// the primary column; a column flushed twice concatenates with one space.
fn flush_field(
    patterns: &mut Vec<Option<String>>,
    field: &mut Option<usize>,
    text: &mut String,
    primary: usize,
)
    requires
        primary < old(patterns)@.len(),
        (*old(field)) matches Some(j) ==> j < old(patterns)@.len(),
    ensures
        final(patterns).deep_view() == flush_patterns(
            old(patterns).deep_view(),
            flush_key(opt_index(*old(field)), primary as int),
            old(text)@,
        ),
        final(patterns)@.len() == old(patterns)@.len(),
        *final(field) is None,
        final(text)@ == Seq::<char>::empty(),
{
    let key: usize = match *field {
        Some(j) => j,
        None => primary,
    };
    let new_pat: String = match &patterns[key] {
        Some(p) => {
            let mut s = p.clone();
            s.append(" ");
            s.append(text.as_str());
            proof {
                reveal_strlit(" ");
                assert(" "@ =~= seq![' ']);
            }
            s
        },
        None => text.clone(),
    };
    proof {
        assert(new_pat@ == merged_pattern(patterns.deep_view()[key as int], text@));
    }
    patterns.set(key, Some(new_pat));
    *field = None;
    *text = String::new();
    proof {
        assert(patterns.deep_view() =~= flush_patterns(
            old(patterns).deep_view(),
            flush_key(opt_index(*old(field)), primary as int),
            old(text)@,
        ));
        assert(text@ =~= Seq::<char>::empty());
    }
}

/// Parses one line of prompt text against the given column names; the column
/// at `primary_column` collects the free (unnamed) words.
pub fn parse_query(column_names: &Vec<String>, primary_column: usize, input: &str) -> (q: Query)
    requires
        primary_column < column_names@.len(),
    ensures
        q.wf(),
        q.names_view() == column_names.deep_view(),
        q@.len() == column_names@.len(),
        q@ == spec_parse_query(column_names.deep_view(), primary_column as int, input@),
{
    let ghost names_v = column_names.deep_view();
    let ghost primary_v = primary_column as int;
    let n = column_names.len();
    let mut patterns = none_patterns(n);
    let mut escaped = false;
    let mut quoted = false;
    let mut in_field = false;
    let mut field: Option<usize> = None;
    let mut text = String::new();
    let len = input.unicode_len();
    proof {
        assert(input@.take(0) =~= Seq::<char>::empty());
        assert(patterns.deep_view() =~= init_state(names_v.len()).patterns);
    }
    let mut i: usize = 0;
    while i < len
        invariant
            i <= len,
            len as nat == input@.len(),
            n == names_v.len(),
            names_v == column_names.deep_view(),
            primary_column < n,
            primary_v == primary_column as int,
            patterns@.len() == n,
            field matches Some(j) ==> j < n,
            ({
                let st = run(names_v, primary_v, input@.take(i as int));
                &&& escaped == st.escaped
                &&& quoted == st.quoted
                &&& in_field == st.in_field
                &&& opt_index(field) == st.field
                &&& text@ == st.text
                &&& patterns.deep_view() == st.patterns
            }),
        decreases len - i,
    {
        let ghost st = run(names_v, primary_v, input@.take(i as int));
        let ch = input.get_char(i);
        proof {
            assert(input@.take(i + 1).drop_last() =~= input@.take(i as int));
            assert(input@.take(i + 1).last() == input@[i as int]);
        }
        if ch == '\\' {
            escaped = !escaped;
        } else if escaped {
            if ch != '%' && ch != '"' {
                push_char(&mut text, '\\');
            }
            push_char(&mut text, ch);
            escaped = false;
        } else if ch == '"' {
            quoted = !quoted;
        } else if ch == ' ' && quoted {
            push_char(&mut text, '\\');
            push_char(&mut text, ' ');
        } else if (ch == '%' || ch == ':') && quoted {
            push_char(&mut text, ch);
        } else if (ch == '%' || ch == ' ') && text.as_str().unicode_len() > 0 {
            flush_field(&mut patterns, &mut field, &mut text, primary_column);
            in_field = ch == '%';
        } else if ch == '%' {
            in_field = true;
        } else if ch == ' ' {
            // a separator with nothing pending changes nothing
        } else if ch == ':' && in_field {
            field = resolve_name(column_names, text.as_str());
            proof {
                lemma_find_name_range(names_v, text@);
            }
            text = String::new();
            in_field = false;
        } else {
            push_char(&mut text, ch);
        }
        proof {
            let st2 = run(names_v, primary_v, input@.take(i + 1));
            assert(st2 == step(names_v, primary_v, st, input@[i as int]));
            assert(text@ =~= st2.text);
        }
        i += 1;
    }
    proof {
        assert(input@.take(len as int) =~= input@);
    }
    if !in_field && text.as_str().unicode_len() > 0 {
        flush_field(&mut patterns, &mut field, &mut text, primary_column);
    }
    let names = clone_names(column_names);
    proof {
        lemma_vec_deep_view(patterns);
    }
    Query { names, patterns }
}

// ------------------------------------------------------------------------
// The normalization law: parsing a query's own serialized `%name:value`
// tokens reproduces the query.
// ------------------------------------------------------------------------
/// A character with no role in the query grammar: not the escape, quote,
/// field or separator symbol, and not the name/value delimiter.
pub open spec fn plain_char(c: char) -> bool {
    c != '\\' && c != '"' && c != '%' && c != ' ' && c != ':'
}

/// Text made only of grammar-free characters.
pub open spec fn plain_text(s: Seq<char>) -> bool {
    forall|k: int| 0 <= k < s.len() ==> plain_char(s[k])
}

/// Column names fit for round-tripping: nonempty, grammar-free, distinct.
pub open spec fn roundtrip_names(names: Seq<Seq<char>>) -> bool {
    &&& forall|i: int| 0 <= i < names.len() ==> (#[trigger] names[i]).len() > 0 && plain_text(
        names[i],
    )
    &&& forall|i: int, j: int| 0 <= i < j < names.len() ==> names[i] != names[j]
}

/// Patterns fit for round-tripping: every assigned value is nonempty and
/// grammar-free.
pub open spec fn roundtrip_patterns(q: Seq<Option<Seq<char>>>) -> bool {
    forall|i: int| 0 <= i < q.len() ==> match #[trigger] q[i] {
        Some(v) => v.len() > 0 && plain_text(v),
        None => true,
    }
}

/// One serialized field assignment, `%name:value `.
pub open spec fn token(name: Seq<char>, value: Seq<char>) -> Seq<char> {
    seq!['%'] + name + seq![':'] + value + seq![' ']
}

/// The query's normalized text from column `i` on: one token per assigned
/// column, in column order.
pub open spec fn serialize(names: Seq<Seq<char>>, q: Seq<Option<Seq<char>>>, i: int) -> Seq<char>
    decreases q.len() - i,
{
    if i < 0 || i >= q.len() {
        Seq::empty()
    } else {
        (match q[i] {
            Some(v) => token(names[i], v),
            None => Seq::empty(),
        }) + serialize(names, q, i + 1)
    }
}

/// A parser state holding `ps` with nothing else pending.
pub open spec fn clean_state(ps: Seq<Option<Seq<char>>>) -> ParseState {
    ParseState {
        escaped: false,
        quoted: false,
        in_field: false,
        field: None,
        text: Seq::empty(),
        patterns: ps,
    }
}

/// The parser run continued from an arbitrary state.
pub open spec fn run_from(
    names: Seq<Seq<char>>,
    primary: int,
    st: ParseState,
    input: Seq<char>,
) -> ParseState
    decreases input.len(),
{
    if input.len() == 0 {
        st
    } else {
        step(names, primary, run_from(names, primary, st, input.drop_last()), input.last())
    }
}

/// Running over a concatenation is running over the pieces in turn.
proof fn lemma_run_from_append(
    names: Seq<Seq<char>>,
    primary: int,
    st: ParseState,
    a: Seq<char>,
    b: Seq<char>,
)
    ensures
        run_from(names, primary, st, a + b) == run_from(names, primary, run_from(names, primary, st, a), b),
    decreases b.len(),
{
    if b.len() == 0 {
        assert(a + b =~= a);
    } else {
        lemma_run_from_append(names, primary, st, a, b.drop_last());
        assert((a + b).drop_last() =~= a + b.drop_last());
        assert((a + b).last() == b.last());
    }
}

/// The full parse is the continuation of the empty state.
proof fn lemma_run_is_run_from(names: Seq<Seq<char>>, primary: int, input: Seq<char>)
    ensures
        run(names, primary, input) == run_from(
            names,
            primary,
            init_state(names.len()),
            input,
        ),
    decreases input.len(),
{
    if input.len() > 0 {
        lemma_run_is_run_from(names, primary, input.drop_last());
    }
}

/// Grammar-free characters only ever extend the pending text.
proof fn lemma_plain_chars(names: Seq<Seq<char>>, primary: int, st: ParseState, s: Seq<char>)
    requires
        !st.escaped,
        !st.quoted,
        plain_text(s),
    ensures
        run_from(names, primary, st, s) == (ParseState { text: st.text + s, ..st }),
    decreases s.len(),
{
    if s.len() == 0 {
        assert(st.text + s =~= st.text);
    } else {
        assert(plain_text(s.drop_last())) by {
            assert(forall|k: int| 0 <= k < s.len() - 1 ==> s.drop_last()[k] == s[k]);
        }
        lemma_plain_chars(names, primary, st, s.drop_last());
        let c = s.last();
        assert(plain_char(s[s.len() - 1]));
        assert(st.text + s =~= (st.text + s.drop_last()).push(c));
    }
}

/// Running over a single character is one step.
proof fn lemma_run_single(names: Seq<Seq<char>>, primary: int, st: ParseState, c: char)
    ensures
        run_from(names, primary, st, seq![c]) == step(names, primary, st, c),
{
    assert(seq![c].len() == 1);
    assert(seq![c].drop_last() =~= Seq::<char>::empty());
    assert(run_from(names, primary, st, seq![c].drop_last()) == st);
    assert(seq![c].last() == c);
}

/// One serialized token, parsed from a clean state, assigns exactly its
/// column and returns to a clean state.
proof fn lemma_token_parses(
    names: Seq<Seq<char>>,
    primary: int,
    ps: Seq<Option<Seq<char>>>,
    idx: int,
    v: Seq<char>,
)
    requires
        0 <= primary < names.len(),
        0 <= idx < names.len(),
        names[idx].len() > 0,
        plain_text(names[idx]),
        find_name(names, names[idx]) == Some(idx),
        v.len() > 0,
        plain_text(v),
        ps.len() == names.len(),
        ps[idx] is None,
    ensures
        run_from(names, primary, clean_state(ps), token(names[idx], v)) == clean_state(
            ps.update(idx, Some(v)),
        ),
{
    let name = names[idx];
    let st0 = clean_state(ps);
    let a1 = seq!['%'];
    let a3 = seq![':'];
    let a5 = seq![' '];
    assert(token(name, v) == a1 + name + a3 + v + a5);
    lemma_run_from_append(names, primary, st0, a1 + name + a3 + v, a5);
    lemma_run_from_append(names, primary, st0, a1 + name + a3, v);
    lemma_run_from_append(names, primary, st0, a1 + name, a3);
    lemma_run_from_append(names, primary, st0, a1, name);
    lemma_run_single(names, primary, st0, '%');
    let st1 = step(names, primary, st0, '%');
    assert(st1 == (ParseState { in_field: true, ..st0 }));
    lemma_plain_chars(names, primary, st1, name);
    let st2 = run_from(names, primary, st1, name);
    assert(st2.text =~= name);
    let st3 = run_from(names, primary, st2, a3);
    lemma_run_single(names, primary, st2, ':');
    assert(st3 == step(names, primary, st2, ':'));
    assert(st3 == (ParseState {
        field: Some(idx),
        text: Seq::empty(),
        in_field: false,
        ..st2
    }));
    lemma_plain_chars(names, primary, st3, v);
    let st4 = run_from(names, primary, st3, v);
    assert(st4.text =~= v);
    let st5 = run_from(names, primary, st4, a5);
    lemma_run_single(names, primary, st4, ' ');
    assert(st5 == step(names, primary, st4, ' '));
    assert(st5.patterns == flush_patterns(ps, idx, st4.text));
    assert(merged_pattern(ps[idx], st4.text) == v);
    assert(st5 == clean_state(ps.update(idx, Some(v))));
}

/// The patterns after re-parsing tokens `i..`: every assigned column from
/// `i` on takes its value, everything else stays.
pub open spec fn overridden(
    ps: Seq<Option<Seq<char>>>,
    q: Seq<Option<Seq<char>>>,
    i: int,
) -> Seq<Option<Seq<char>>> {
    Seq::new(
        ps.len(),
        |j: int|
            if j >= i && q[j] is Some {
                q[j]
            } else {
                ps[j]
            },
    )
}

/// Re-parsing the tokens from `i` on fills exactly the assigned columns.
proof fn lemma_serialize_parses(
    names: Seq<Seq<char>>,
    primary: int,
    q: Seq<Option<Seq<char>>>,
    ps: Seq<Option<Seq<char>>>,
    i: int,
)
    requires
        0 <= primary < names.len(),
        q.len() == names.len(),
        ps.len() == names.len(),
        roundtrip_names(names),
        roundtrip_patterns(q),
        0 <= i <= q.len(),
        forall|j: int| i <= j < ps.len() ==> ps[j] is None,
    ensures
        run_from(names, primary, clean_state(ps), serialize(names, q, i)) == clean_state(
            overridden(ps, q, i),
        ),
    decreases q.len() - i,
{
    if i == q.len() {
        assert(overridden(ps, q, i) =~= ps);
    } else {
        match q[i] {
            Some(v) => {
                assert(forall|j: int| 0 <= j < i ==> names[j] != names[i]);
                lemma_find_name_hit(names, names[i], i);
                lemma_token_parses(names, primary, ps, i, v);
                lemma_run_from_append(
                    names,
                    primary,
                    clean_state(ps),
                    token(names[i], v),
                    serialize(names, q, i + 1),
                );
                let ps2 = ps.update(i, Some(v));
                lemma_serialize_parses(names, primary, q, ps2, i + 1);
                assert(overridden(ps2, q, i + 1) =~= overridden(ps, q, i));
            },
            None => {
                assert(serialize(names, q, i) =~= Seq::<char>::empty() + serialize(
                    names,
                    q,
                    i + 1,
                ));
                assert(Seq::<char>::empty() + serialize(names, q, i + 1) =~= serialize(
                    names,
                    q,
                    i + 1,
                ));
                lemma_serialize_parses(names, primary, q, ps, i + 1);
                assert(overridden(ps, q, i + 1) =~= overridden(ps, q, i));
            },
        }
    }
}

/// The parser is idempotent on its own normalized output: re-parsing the
/// concatenation of the `%name:value ` tokens a query could have been
/// written as reproduces that query, column for column. This holds for
/// grammar-free names and values; a value holding a reserved character (a
/// space, say) is re-split on re-parsing and is excluded here.
pub proof fn lemma_parse_query_idempotent(
    names: Seq<Seq<char>>,
    primary: int,
    q: Seq<Option<Seq<char>>>,
)
    requires
        0 <= primary < names.len(),
        q.len() == names.len(),
        roundtrip_names(names),
        roundtrip_patterns(q),
    ensures
        spec_parse_query(names, primary, serialize(names, q, 0)) == q,
{
    let input = serialize(names, q, 0);
    lemma_run_is_run_from(names, primary, input);
    let none_ps = Seq::new(names.len(), |j: int| None::<Seq<char>>);
    assert(init_state(names.len()) == clean_state(none_ps));
    lemma_serialize_parses(names, primary, q, none_ps, 0);
    let end = run(names, primary, input);
    assert(end == clean_state(overridden(none_ps, q, 0)));
    assert(overridden(none_ps, q, 0) =~= q);
    assert(finish(end, primary) == end.patterns);
}

} // verus!
