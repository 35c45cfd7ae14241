use vstd::prelude::*;
use vstd::std_specs::iter::IteratorSpec;
use vstd::string::*;

use crate::shim::{ident_char, is_ident, is_type_text, PluginDeclaration, ShimError};

verus! {

broadcast use vstd::string::group_string_axioms;

/// What starts a line that implements the plugin interface.
pub const IMPL_PREFIX: &'static str = "impl Plugin<";

/// What separates the registry type from the plugin type in that line.
pub const IMPL_FOR: &'static str = "> for ";

/// What starts a line that declares a public struct.
pub const STRUCT_PREFIX: &'static str = "pub struct ";

/// A space, a tab or a carriage return.
pub open spec fn is_blank(c: char) -> bool {
    c == ' ' || c == '\t' || c == '\r'
}

/// `s` without its leading blanks.
pub open spec fn skip_blanks(s: Seq<char>) -> Seq<char>
    decreases s.len(),
{
    if s.len() > 0 && is_blank(s[0]) {
        skip_blanks(s.drop_first())
    } else {
        s
    }
}

/// Whether `s` begins with `p`.
pub open spec fn starts_with(s: Seq<char>, p: Seq<char>) -> bool {
    p.len() <= s.len() && s.take(p.len() as int) == p
}

/// Where `p` first occurs in `s`.
pub open spec fn find_text(s: Seq<char>, p: Seq<char>) -> Option<int>
    decreases s.len(),
{
    if starts_with(s, p) {
        Some(0)
    } else if s.len() == 0 {
        None
    } else {
        match find_text(s.drop_first(), p) {
            Some(k) => Some(k + 1),
            None => None,
        }
    }
}

/// How many identifier characters `s` starts with.
pub open spec fn ident_run(s: Seq<char>) -> nat
    decreases s.len(),
{
    if s.len() > 0 && ident_char(s[0]) {
        1 + ident_run(s.drop_first())
    } else {
        0
    }
}

/// The lines of `s`: the pieces between line feeds.
pub open spec fn lines(s: Seq<char>) -> Seq<Seq<char>>
    decreases s.len(),
{
    if s.len() == 0 {
        seq![Seq::empty()]
    } else {
        let prefix = lines(s.drop_last());
        if s.last() == '\n' {
            prefix.push(Seq::empty())
        } else {
            prefix.update(prefix.len() - 1, prefix.last().push(s.last()))
        }
    }
}

/// The plugin type and the registry type of a line of the form, after leading
/// blanks, `impl Plugin<` registry type `> for ` plugin type, the registry type
/// ending at the first `> for ` and the plugin type being the identifier after it.
pub open spec fn impl_of_line(line: Seq<char>) -> Option<(Seq<char>, Seq<char>)> {
    let t = skip_blanks(line);
    if !starts_with(t, IMPL_PREFIX@) {
        None
    } else {
        let rest = t.skip(IMPL_PREFIX@.len() as int);
        match find_text(rest, IMPL_FOR@) {
            None => None,
            Some(k) => {
                let after = rest.skip(k + IMPL_FOR@.len());
                let n = ident_run(after);
                if n == 0 {
                    None
                } else {
                    Some((after.take(n as int), rest.take(k)))
                }
            },
        }
    }
}

/// Whether a line, after leading blanks, declares the public struct `name`.
pub open spec fn declares_struct(line: Seq<char>, name: Seq<char>) -> bool {
    let t = skip_blanks(line);
    let rest = t.skip(STRUCT_PREFIX@.len() as int);
    starts_with(t, STRUCT_PREFIX@) && starts_with(rest, name) && ident_run(rest) == name.len()
}

/// The implementations of the plugin interface among `ls`, in order.
pub open spec fn impls_in(ls: Seq<Seq<char>>) -> Seq<(Seq<char>, Seq<char>)>
    decreases ls.len(),
{
    if ls.len() == 0 {
        Seq::empty()
    } else {
        match impl_of_line(ls.last()) {
            Some(x) => impls_in(ls.drop_last()).push(x),
            None => impls_in(ls.drop_last()),
        }
    }
}

/// What scanning `src` finds: the plugin type and the registry type of its one
/// implementation of the plugin interface, whose type it declares as a public
/// struct; or why there is no such pair.
pub open spec fn scan_outcome(src: Seq<char>) -> Result<(Seq<char>, Seq<char>), ShimError> {
    let found = impls_in(lines(src));
    if found.len() == 0 {
        Err(ShimError::NoPluginImpl)
    } else if found.len() > 1 {
        Err(ShimError::AmbiguousPluginImpl)
    } else if !exists|i: int| 0 <= i < lines(src).len() && declares_struct(lines(src)[i], found[0].0) {
        Err(ShimError::NoPluginStruct)
    } else {
        Ok(found[0])
    }
}

proof fn lemma_skip_blanks(s: Seq<char>, k: int)
    requires
        0 <= k <= s.len(),
        forall|j: int| 0 <= j < k ==> is_blank(s[j]),
    ensures
        skip_blanks(s) == skip_blanks(s.skip(k)),
    decreases k,
{
    if k == 0 {
        assert(s.skip(0) =~= s);
    } else {
        lemma_skip_blanks(s.drop_first(), k - 1);
        assert(s.drop_first().skip(k - 1) =~= s.skip(k));
    }
}

proof fn lemma_find_text(s: Seq<char>, p: Seq<char>, j: int)
    requires
        0 <= j <= s.len(),
        forall|m: int| 0 <= m < j ==> !starts_with(#[trigger] s.skip(m), p),
    ensures
        find_text(s, p) == match find_text(s.skip(j), p) {
            Some(k) => Some(k + j),
            None => None::<int>,
        },
    decreases j,
{
    if j == 0 {
        assert(s.skip(0) =~= s);
    } else {
        assert(s.skip(0) =~= s);
        assert forall|m: int| 0 <= m < j - 1 implies !starts_with(#[trigger] s.drop_first().skip(m), p) by {
            assert(s.drop_first().skip(m) =~= s.skip(m + 1));
        }
        lemma_find_text(s.drop_first(), p, j - 1);
        assert(s.drop_first().skip(j - 1) =~= s.skip(j));
    }
}

proof fn lemma_find_text_found(s: Seq<char>, p: Seq<char>)
    ensures
        find_text(s, p) is Some ==> 0 <= find_text(s, p)->Some_0 <= s.len() && starts_with(
            s.skip(find_text(s, p)->Some_0),
            p,
        ),
    decreases s.len(),
{
    if starts_with(s, p) {
        assert(s.skip(0) =~= s);
    } else if s.len() > 0 {
        lemma_find_text_found(s.drop_first(), p);
        if find_text(s.drop_first(), p) is Some {
            let k = find_text(s.drop_first(), p)->Some_0;
            assert(s.drop_first().skip(k) =~= s.skip(k + 1));
        }
    }
}

proof fn lemma_ident_run(s: Seq<char>, j: int)
    requires
        0 <= j <= s.len(),
        forall|m: int| 0 <= m < j ==> ident_char(s[m]),
    ensures
        ident_run(s) == j + ident_run(s.skip(j)),
    decreases j,
{
    if j == 0 {
        assert(s.skip(0) =~= s);
    } else {
        lemma_ident_run(s.drop_first(), j - 1);
        assert(s.drop_first().skip(j - 1) =~= s.skip(j));
    }
}

proof fn lemma_ident_run_len(s: Seq<char>)
    ensures
        ident_run(s) <= s.len(),
        forall|m: int| 0 <= m < ident_run(s) ==> ident_char(s[m]),
    decreases s.len(),
{
    if s.len() > 0 && ident_char(s[0]) {
        lemma_ident_run_len(s.drop_first());
        assert forall|m: int| 0 <= m < ident_run(s) implies ident_char(s[m]) by {
            if m > 0 {
                assert(s[m] == s.drop_first()[m - 1]);
            }
        }
    }
}

/// The characters of `s`.
fn chars_of(s: &str) -> (r: Vec<char>)
    ensures
        r@ == s@,
{
    let mut it = s.chars();
    let mut out: Vec<char> = Vec::new();
    loop
        invariant
            out@ + IteratorSpec::remaining(&it) == s@,
        ensures
            out@ == s@,
        decreases s@.len() - out@.len(),
    {
        match it.next() {
            Some(c) => {
                out.push(c);
            },
            None => {
                assert(IteratorSpec::remaining(&it).len() == 0);
                assert(out@ =~= s@);
                break;
            },
        }
    }
    out
}

fn is_blank_exec(c: char) -> (r: bool)
    ensures
        r == is_blank(c),
{
    c == ' ' || c == '\t' || c == '\r'
}

/// How many blanks `s` starts with.
fn blank_prefix(s: &Vec<char>) -> (k: usize)
    ensures
        k <= s@.len(),
        skip_blanks(s@) == s@.skip(k as int),
{
    let mut k: usize = 0;
    while k < s.len() && is_blank_exec(s[k])
        invariant
            k <= s@.len(),
            forall|j: int| 0 <= j < k ==> is_blank(s@[j]),
        decreases s@.len() - k,
    {
        k = k + 1;
    }
    proof {
        lemma_skip_blanks(s@, k as int);
    }
    k
}

/// Whether `s` from position `at` on begins with `p`.
fn matches_at(s: &Vec<char>, at: usize, p: &Vec<char>) -> (r: bool)
    requires
        at <= s@.len(),
    ensures
        r == starts_with(s@.skip(at as int), p@),
{
    if p.len() > s.len() - at {
        return false;
    }
    let mut i: usize = 0;
    while i < p.len()
        invariant
            at + p@.len() <= s@.len(),
            s@.len() <= usize::MAX,
            i <= p@.len(),
            forall|m: int| 0 <= m < i ==> s@[at + m] == p@[m],
        decreases p@.len() - i,
    {
        if s[at + i] != p[i] {
            proof {
                assert(s@.skip(at as int).take(p@.len() as int)[i as int] != p@[i as int]);
            }
            return false;
        }
        i = i + 1;
    }
    proof {
        assert(s@.skip(at as int).take(p@.len() as int) =~= p@);
    }
    true
}

/// Where `p` first occurs in `s` from position `at` on, as a position of `s`.
fn find_from(s: &Vec<char>, at: usize, p: &Vec<char>) -> (r: Option<usize>)
    requires
        at <= s@.len(),
    ensures
        match find_text(s@.skip(at as int), p@) {
            Some(k) => r is Some && r->Some_0 == at + k,
            None => r is None,
        },
{
    let ghost t = s@.skip(at as int);
    let mut j: usize = at;
    while j < s.len()
        invariant
            at <= j <= s@.len(),
            t == s@.skip(at as int),
            forall|m: int| 0 <= m < j - at ==> !starts_with(#[trigger] t.skip(m), p@),
        decreases s@.len() - j,
    {
        let found = matches_at(s, j, p);
        proof {
            assert(t.skip(j - at) =~= s@.skip(j as int));
        }
        if found {
            proof {
                lemma_find_text(t, p@, j - at);
            }
            return Some(j);
        }
        j = j + 1;
    }
    let found = matches_at(s, j, p);
    proof {
        assert(t.skip(j - at) =~= s@.skip(j as int));
        lemma_find_text(t, p@, j - at);
    }
    if found {
        return Some(j);
    }
    proof {
        assert(t.skip(t.len() as int) =~= Seq::<char>::empty());
        assert(find_text(t.skip(t.len() as int), p@) is None);
    }
    None
}

/// How many identifier characters `s` has from position `at` on.
fn ident_run_from(s: &Vec<char>, at: usize) -> (n: usize)
    requires
        at <= s@.len(),
    ensures
        n == ident_run(s@.skip(at as int)),
        at + n <= s@.len(),
{
    let ghost t = s@.skip(at as int);
    let mut j: usize = at;
    while j < s.len() && crate::shim::ident_char_exec(s[j])
        invariant
            at <= j <= s@.len(),
            t == s@.skip(at as int),
            forall|m: int| 0 <= m < j - at ==> ident_char(t[m]),
        decreases s@.len() - j,
    {
        j = j + 1;
    }
    proof {
        lemma_ident_run(t, j - at);
        assert(t.skip(j - at) =~= s@.skip(j as int));
    }
    j - at
}

/// The positions, in `line`, of the plugin type and of the registry type of an
/// implementation of the plugin interface.
fn impl_of(line: &Vec<char>, prefix: &Vec<char>, sep: &Vec<char>) -> (r: Option<
    (usize, usize, usize, usize),
>)
    requires
        prefix@ == IMPL_PREFIX@,
        sep@ == IMPL_FOR@,
    ensures
        r is None <==> impl_of_line(line@) is None,
        r is Some ==> ({
            let (pa, pb, ca, cb) = r->Some_0;
            &&& pa <= pb <= line@.len()
            &&& ca <= cb <= line@.len()
            &&& impl_of_line(line@) == Some((line@.subrange(pa as int, pb as int), line@.subrange(ca as int, cb as int)))
        }),
{
    let k0 = blank_prefix(line);
    if !matches_at(line, k0, prefix) {
        return None;
    }
    let n = line.len();
    proof {
        assert(line@.skip(k0 as int).len() == line@.len() - k0);
        assert(starts_with(line@.skip(k0 as int), prefix@));
        assert(prefix@.len() <= n - k0);
    }
    let r0 = k0 + prefix.len();
    proof {
        assert(line@.skip(k0 as int).skip(prefix@.len() as int) =~= line@.skip(r0 as int));
    }
    let j = match find_from(line, r0, sep) {
        Some(j) => j,
        None => return None,
    };
    let ghost rest = line@.skip(r0 as int);
    let ghost k = j - r0;
    proof {
        assert(find_text(rest, sep@) == Some(k));
        lemma_find_text_found(rest, sep@);
        assert(rest.skip(k).len() == rest.len() - k);
        assert(rest.skip(k) =~= line@.skip(j as int));
    }
    let a0 = j + sep.len();
    proof {
        assert(rest.skip(k + sep@.len()) =~= line@.skip(a0 as int));
    }
    let n = ident_run_from(line, a0);
    if n == 0 {
        return None;
    }
    proof {
        assert(line@.skip(a0 as int).take(n as int) =~= line@.subrange(a0 as int, a0 + n));
        assert(rest.take(k) =~= line@.subrange(r0 as int, j as int));
    }
    Some((a0, a0 + n, r0, j))
}

/// Whether `line` declares the public struct `name`.
fn declares(line: &Vec<char>, name: &Vec<char>, prefix: &Vec<char>) -> (r: bool)
    requires
        prefix@ == STRUCT_PREFIX@,
    ensures
        r == declares_struct(line@, name@),
{
    let k0 = blank_prefix(line);
    if !matches_at(line, k0, prefix) {
        return false;
    }
    let n = line.len();
    proof {
        assert(line@.skip(k0 as int).len() == line@.len() - k0);
        assert(starts_with(line@.skip(k0 as int), prefix@));
        assert(prefix@.len() <= n - k0);
    }
    let q = k0 + prefix.len();
    proof {
        assert(line@.skip(k0 as int).skip(prefix@.len() as int) =~= line@.skip(q as int));
    }
    matches_at(line, q, name) && ident_run_from(line, q) == name.len()
}

/// The characters of `s` from `a` up to `b`.
fn copy_range(s: &Vec<char>, a: usize, b: usize) -> (r: Vec<char>)
    requires
        a <= b <= s@.len(),
    ensures
        r@ == s@.subrange(a as int, b as int),
{
    let mut out: Vec<char> = Vec::new();
    let mut i: usize = a;
    while i < b
        invariant
            a <= i <= b,
            b <= s@.len(),
            out@ == s@.subrange(a as int, i as int),
        decreases b - i,
    {
        out.push(s[i]);
        i = i + 1;
        proof {
            assert(out@ =~= s@.subrange(a as int, i as int));
        }
    }
    out
}

/// The views of a vector of lines.
pub open spec fn line_views(ls: Seq<Vec<char>>) -> Seq<Seq<char>> {
    ls.map_values(|l: Vec<char>| l@)
}

/// The lines of `cs`, each with the position in `cs` where it starts.
fn split_lines(cs: &Vec<char>) -> (r: (Vec<Vec<char>>, Vec<usize>))
    ensures
        line_views(r.0@) == lines(cs@),
        r.1@.len() == r.0@.len(),
        forall|m: int|
            0 <= m < r.0@.len() ==> r.1@[m] + r.0@[m]@.len() <= cs@.len() && r.0@[m]@
                == cs@.subrange(r.1@[m] as int, r.1@[m] + r.0@[m]@.len()),
{
    let mut done: Vec<Vec<char>> = Vec::new();
    let mut starts: Vec<usize> = Vec::new();
    let mut cur: Vec<char> = Vec::new();
    let mut cur_start: usize = 0;
    let mut i: usize = 0;
    proof {
        assert(cs@.take(0) =~= Seq::<char>::empty());
        assert(line_views(done@).push(cur@) =~= seq![Seq::<char>::empty()]);
    }
    while i < cs.len()
        invariant
            i <= cs@.len(),
            lines(cs@.take(i as int)) == line_views(done@).push(cur@),
            starts@.len() == done@.len(),
            forall|m: int|
                0 <= m < done@.len() ==> starts@[m] + done@[m]@.len() <= i && done@[m]@
                    == cs@.subrange(starts@[m] as int, starts@[m] + done@[m]@.len()),
            cur_start <= i,
            cur@ == cs@.subrange(cur_start as int, i as int),
        decreases cs@.len() - i,
    {
        let c = cs[i];
        proof {
            assert(cs@.take(i + 1).drop_last() =~= cs@.take(i as int));
            assert(cs@.take(i + 1).last() == c);
        }
        if c == '\n' {
            let ghost before = line_views(done@);
            let ghost line = cur@;
            done.push(cur);
            starts.push(cur_start);
            cur = Vec::new();
            cur_start = i + 1;
            proof {
                assert(line_views(done@) =~= before.push(line));
                assert(line_views(done@).push(cur@) =~= before.push(line).push(Seq::empty()));
                assert(cur@ =~= cs@.subrange(cur_start as int, i + 1));
            }
        } else {
            let ghost before = line_views(done@).push(cur@);
            cur.push(c);
            proof {
                assert(line_views(done@).push(cur@) =~= before.update(
                    before.len() - 1,
                    before.last().push(c),
                ));
                assert(cur@ =~= cs@.subrange(cur_start as int, i + 1));
            }
        }
        i = i + 1;
    }
    let ghost before = line_views(done@);
    let ghost line = cur@;
    done.push(cur);
    starts.push(cur_start);
    proof {
        assert(cs@.take(i as int) =~= cs@);
        assert(line_views(done@) =~= before.push(line));
    }
    (done, starts)
}

impl PluginDeclaration {
    /// Finds the declaration in a plugin's source: the one line that implements the
    /// plugin interface, `impl Plugin<` registry type `> for ` plugin type, whose
    /// plugin type a line declares as `pub struct`. No such line, two of them, or
    /// no such struct is an error, as is a name that `new` refuses.
    pub fn scan(source: &str) -> (r: Result<PluginDeclaration, ShimError>)
        ensures
            scan_outcome(source@) is Err ==> r == Err::<PluginDeclaration, ShimError>(
                scan_outcome(source@)->Err_0,
            ),
            scan_outcome(source@) is Ok ==> ({
                let plugin = scan_outcome(source@)->Ok_0.0;
                let context = scan_outcome(source@)->Ok_0.1;
                &&& !is_ident(plugin) ==> r == Err::<PluginDeclaration, ShimError>(
                    ShimError::InvalidPluginName,
                )
                &&& is_ident(plugin) && !is_type_text(context) ==> r == Err::<
                    PluginDeclaration,
                    ShimError,
                >(ShimError::InvalidContextType)
                &&& is_ident(plugin) && is_type_text(context) ==> r is Ok
                    && r->Ok_0.plugin_view() == plugin && r->Ok_0.context_view() == context
            }),
    {
        let cs = chars_of(source);
        let (all, starts) = split_lines(&cs);
        let ghost ls = lines(source@);
        let impl_prefix = chars_of(IMPL_PREFIX);
        let impl_for = chars_of(IMPL_FOR);
        let mut count: usize = 0;
        let mut first: (usize, usize, usize, usize, usize) = (0, 0, 0, 0, 0);
        let mut m: usize = 0;
        while m < all.len()
            invariant
                line_views(all@) == ls,
                impl_prefix@ == IMPL_PREFIX@,
                impl_for@ == IMPL_FOR@,
                m <= all@.len(),
                count <= 2,
                count == 0 ==> impls_in(ls.take(m as int)).len() == 0,
                count == 1 ==> impls_in(ls.take(m as int)).len() == 1,
                count == 2 ==> impls_in(ls.take(m as int)).len() >= 2,
                count >= 1 ==> ({
                    let (f, pa, pb, ca, cb) = first;
                    &&& f < all@.len()
                    &&& pa <= pb <= all@[f as int]@.len()
                    &&& ca <= cb <= all@[f as int]@.len()
                    &&& impls_in(ls.take(m as int))[0] == (
                        all@[f as int]@.subrange(pa as int, pb as int),
                        all@[f as int]@.subrange(ca as int, cb as int),
                    )
                }),
            decreases all@.len() - m,
        {
            proof {
                assert(ls.take(m + 1).drop_last() =~= ls.take(m as int));
                assert(ls.take(m + 1).last() == all@[m as int]@);
            }
            match impl_of(&all[m], &impl_prefix, &impl_for) {
                Some((pa, pb, ca, cb)) => {
                    if count == 0 {
                        first = (m, pa, pb, ca, cb);
                    }
                    if count < 2 {
                        count = count + 1;
                    }
                },
                None => {},
            }
            m = m + 1;
        }
        proof {
            assert(ls.take(m as int) =~= ls);
        }
        if count == 0 {
            return Err(ShimError::NoPluginImpl);
        }
        if count > 1 {
            return Err(ShimError::AmbiguousPluginImpl);
        }
        let (f, pa, pb, ca, cb) = first;
        let name = copy_range(&all[f], pa, pb);
        let struct_prefix = chars_of(STRUCT_PREFIX);
        let mut declared = false;
        let mut m: usize = 0;
        while m < all.len()
            invariant
                line_views(all@) == ls,
                struct_prefix@ == STRUCT_PREFIX@,
                m <= all@.len(),
                declared == exists|i: int| 0 <= i < m && declares_struct(ls[i], name@),
            decreases all@.len() - m,
        {
            proof {
                assert(ls[m as int] == all@[m as int]@);
            }
            if declares(&all[m], &name, &struct_prefix) {
                declared = true;
            }
            m = m + 1;
        }
        if !declared {
            return Err(ShimError::NoPluginStruct);
        }
        let base = starts[f];
        let total = cs.len();
        proof {
            assert(base + all@[f as int]@.len() <= total);
            let line = all@[f as int]@;
            assert(line.subrange(pa as int, pb as int) =~= cs@.subrange(base + pa, base + pb));
            assert(line.subrange(ca as int, cb as int) =~= cs@.subrange(base + ca, base + cb));
        }
        let plugin = source.substring_char(base + pa, base + pb);
        let context = source.substring_char(base + ca, base + cb);
        PluginDeclaration::new(plugin, context)
    }
}

} // verus!
