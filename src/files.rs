//! Output names for embedded attachments, unique within one output scope.
use vstd::prelude::*;
use vstd::seq_lib::seq_to_set_is_finite;
use vstd::set_lib::lemma_len_subset;
use crate::error::RenderError;
use crate::text::{dec, lemma_dec_injective, lemma_dec_len, push_decimal, push_str};

verus! {

/// The extension of a path, as `std::path::Path::extension` gives it.
pub uninterp spec fn path_extension_of(p: Seq<char>) -> Option<Seq<char>>;

/// Relies on std::path::Path::extension for the extension of a file name.
#[verifier::external_body]
fn path_extension(name: &str) -> (r: Option<String>)
    ensures
        match r {
            Some(e) => path_extension_of(name@) == Some(e@),
            None => path_extension_of(name@) is None,
        },
{
    match std::path::Path::new(name).extension() {
        Some(e) => match e.to_str() {
            Some(t) => Some(t.to_string()),
            None => None,
        },
        None => None,
    }
}

/// `s` without its leading dots.
pub open spec fn trim_start_dots(s: Seq<char>) -> Seq<char>
    decreases s.len(),
{
    if s.len() > 0 && s[0] == '.' {
        trim_start_dots(s.drop_first())
    } else {
        s
    }
}

/// `s` without its trailing dots.
pub open spec fn trim_end_dots(s: Seq<char>) -> Seq<char>
    decreases s.len(),
{
    if s.len() > 0 && s.last() == '.' {
        trim_end_dots(s.drop_last())
    } else {
        s
    }
}

/// `s` without leading or trailing dots.
pub open spec fn trim_dots(s: Seq<char>) -> Seq<char> {
    trim_end_dots(trim_start_dots(s))
}

/// The base of `name` for the extension `ext`: the name with `ext` cut off
/// its end and dots trimmed; none where `ext` does not end the name.
pub open spec fn stem(name: Seq<char>, ext: Seq<char>) -> Option<Seq<char>> {
    if ext.len() <= name.len() && name.skip(name.len() - ext.len()) == ext {
        Some(trim_dots(name.take(name.len() - ext.len())))
    } else {
        None
    }
}

/// The `i`-th alternative name: `base-i.ext`.
pub open spec fn candidate(base: Seq<char>, i: nat, ext: Seq<char>) -> Seq<char> {
    base + "-"@ + dec(i) + "."@ + ext
}

/// `i` is the first alternative that `used` does not hold.
pub open spec fn first_free(used: Set<Seq<char>>, base: Seq<char>, ext: Seq<char>, i: nat) -> bool {
    &&& !used.contains(candidate(base, i, ext))
    &&& forall|j: nat| j < i ==> used.contains(#[trigger] candidate(base, j, ext))
}

/// `out` is the name that `name` resolves to: itself where unused, else the
/// first unused alternative.
pub open spec fn resolves_to(used: Set<Seq<char>>, name: Seq<char>, out: Seq<char>) -> bool {
    if !used.contains(name) {
        out == name
    } else {
        exists|ext: Seq<char>, base: Seq<char>, i: nat|
            path_extension_of(name) == Some(ext) && stem(name, ext) == Some(base) && first_free(
                used,
                base,
                ext,
                i,
            ) && out == candidate(base, i, ext)
    }
}

/// `name` is taken and cannot be split into base and extension.
pub open spec fn unresolvable(used: Set<Seq<char>>, name: Seq<char>) -> bool {
    used.contains(name) && match path_extension_of(name) {
        None => true,
        Some(ext) => stem(name, ext) is None,
    }
}

/// The used names that are alternatives from the `i`-th on.
pub open spec fn remaining(used: Set<Seq<char>>, base: Seq<char>, ext: Seq<char>, i: nat) -> Set<Seq<char>> {
    used.filter(|x: Seq<char>| exists|j: nat| j >= i && x == candidate(base, j, ext))
}

/// Distinct numbers give distinct alternatives.
pub proof fn lemma_candidate_injective(base: Seq<char>, ext: Seq<char>, i: nat, j: nat)
    requires
        candidate(base, i, ext) == candidate(base, j, ext),
    ensures
        i == j,
{
    reveal_strlit("-");
    reveal_strlit(".");
    let ci = candidate(base, i, ext);
    let cj = candidate(base, j, ext);
    let k = base.len() + 1;
    assert("-"@.len() == 1);
    assert("."@.len() == 1);
    assert(ci.len() == base.len() + 1 + dec(i).len() + 1 + ext.len());
    assert(cj.len() == base.len() + 1 + dec(j).len() + 1 + ext.len());
    assert(dec(i).len() == dec(j).len());
    assert(ci.subrange(k as int, (k + dec(i).len()) as int) =~= dec(i));
    assert(cj.subrange(k as int, (k + dec(j).len()) as int) =~= dec(j));
    lemma_dec_injective(i, j);
}

proof fn lemma_remaining_shrinks(used: Set<Seq<char>>, base: Seq<char>, ext: Seq<char>, i: nat)
    requires
        used.finite(),
        used.contains(candidate(base, i, ext)),
    ensures
        remaining(used, base, ext, i).finite(),
        remaining(used, base, ext, i + 1).len() < remaining(used, base, ext, i).len(),
        remaining(used, base, ext, i).len() <= used.len(),
{
    let r0 = remaining(used, base, ext, i);
    let r1 = remaining(used, base, ext, i + 1);
    let c = candidate(base, i, ext);
    lemma_len_subset(r0, used);
    assert(r0.contains(c));
    assert forall|x: Seq<char>| r1.contains(x) implies r0.remove(c).contains(x) by {
        let j = choose|j: nat| j >= i + 1 && x == candidate(base, j, ext);
        assert(x == candidate(base, j, ext));
        if x == c {
            lemma_candidate_injective(base, ext, i, j);
        }
    }
    lemma_len_subset(r1, r0.remove(c));
}

/// Claiming a name a second time, where no alternative of it is taken, gives
/// the first alternative `base-0.ext`.
pub proof fn lemma_second_claim(used: Set<Seq<char>>, name: Seq<char>, ext: Seq<char>, base: Seq<char>, out: Seq<char>)
    requires
        path_extension_of(name) == Some(ext),
        stem(name, ext) == Some(base),
        !used.contains(candidate(base, 0, ext)),
        candidate(base, 0, ext) != name,
    ensures
        resolves_to(used.insert(name), name, out) <==> out == candidate(base, 0, ext),
{
    let u = used.insert(name);
    if out == candidate(base, 0, ext) {
        assert(first_free(u, base, ext, 0));
    }
    if resolves_to(u, name, out) {
        let (e, b, i) = choose|e: Seq<char>, b: Seq<char>, i: nat|
            path_extension_of(name) == Some(e) && stem(name, e) == Some(b) && first_free(u, b, e, i)
                && out == candidate(b, i, e);
        if i > 0 {
            assert(u.contains(candidate(base, 0, ext)));
        }
    }
}

/// The output names already used in one output scope.
pub struct FileRegistry {
    names: Vec<String>,
}

impl View for FileRegistry {
    type V = Set<Seq<char>>;

    closed spec fn view(&self) -> Set<Seq<char>> {
        self.names@.map_values(|s: String| s@).to_set()
    }
}

impl FileRegistry {
    /// A scope with no name used.
    pub fn new() -> (r: FileRegistry)
        ensures
            r@ == Set::<Seq<char>>::empty(),
    {
        let r = FileRegistry { names: Vec::new() };
        assert(r@ =~= Set::<Seq<char>>::empty());
        r
    }

    /// Whether `name` is used.
    pub fn contains(&self, name: &str) -> (r: bool)
        ensures
            r == self@.contains(name@),
    {
        let n = String::from_str(name);
        let mut i: usize = 0;
        while i < self.names.len()
            invariant
                n@ == name@,
                0 <= i <= self.names@.len(),
                forall|j: int| 0 <= j < i ==> self.names@[j]@ != name@,
            decreases self.names@.len() - i,
        {
            if self.names[i] == n {
                assert(self.names@.map_values(|s: String| s@)[i as int] == name@);
                return true;
            }
            i = i + 1;
        }
        proof {
            let v = self.names@.map_values(|s: String| s@);
            if v.to_set().contains(name@) {
                let j = choose|j: int| 0 <= j < v.len() && v[j] == name@;
                assert(self.names@[j]@ == name@);
            }
        }
        false
    }

    /// Marks `name` as used.
    pub fn insert(&mut self, name: String)
        ensures
            final(self)@ == old(self)@.insert(name@),
    {
        let ghost before = self.names@.map_values(|s: String| s@);
        self.names.push(name);
        let ghost after = self.names@.map_values(|s: String| s@);
        assert(after =~= before.push(name@));
        assert forall|x: Seq<char>| after.to_set().contains(x) == before.to_set().insert(name@).contains(x) by {
            if after.to_set().contains(x) {
                let j = choose|j: int| 0 <= j < after.len() && after[j] == x;
                if j < before.len() {
                    assert(before[j] == x);
                }
            }
            if before.to_set().contains(x) {
                let j = choose|j: int| 0 <= j < before.len() && before[j] == x;
                assert(after[j] == x);
            }
            if x == name@ {
                assert(after[before.len() as int] == x);
            }
        }
        assert(after.to_set() =~= before.to_set().insert(name@));
    }

    /// Claims an output name for `filename`: the name itself where it is
    /// unused, else the first unused `base-0.ext`, `base-1.ext`, ... where
    /// `ext` is its extension and `base` the rest without surrounding dots.
    /// Fails, claiming nothing, where a taken name has no extension.
    pub fn determine_filename(&mut self, filename: &str) -> (res: Result<String, RenderError>)
        ensures
            match res {
                Ok(s) => resolves_to(old(self)@, filename@, s@) && final(self)@ == old(self)@.insert(s@),
                Err(e) => e == RenderError::FilenameDisambiguationFailure && unresolvable(old(self)@, filename@)
                    && final(self)@ == old(self)@,
            },
    {
        if !self.contains(filename) {
            self.insert(String::from_str(filename));
            return Ok(String::from_str(filename));
        }
        let ext = match path_extension(filename) {
            Some(e) => e,
            None => return Err(RenderError::FilenameDisambiguationFailure),
        };
        let base = match stem_of(filename, ext.as_str()) {
            Some(b) => b,
            None => return Err(RenderError::FilenameDisambiguationFailure),
        };
        let count = self.names.len();
        let ghost used = self@;
        proof {
            seq_to_set_is_finite(self.names@.map_values(|s: String| s@));
            self.names@.map_values(|s: String| s@).lemma_cardinality_of_set();
            lemma_len_subset(remaining(used, base@, ext@, 0), used);
        }
        let mut i: usize = 0;
        loop
            invariant
                self@ == used,
                old(self)@ == used,
                used.finite(),
                used.len() <= self.names@.len(),
                self.names@.len() == count,
                used.contains(filename@),
                path_extension_of(filename@) == Some(ext@),
                stem(filename@, ext@) == Some(base@),
                forall|j: nat| j < i ==> used.contains(#[trigger] candidate(base@, j, ext@)),
                i + remaining(used, base@, ext@, i as nat).len() <= self.names@.len(),
            decreases remaining(used, base@, ext@, i as nat).len(),
        {
            let c = candidate_name(base.as_str(), i as u64, ext.as_str());
            if !self.contains(c.as_str()) {
                self.insert(c.clone());
                assert(first_free(used, base@, ext@, i as nat));
                assert(resolves_to(used, filename@, c@)) by {
                    let w = i as nat;
                    assert(path_extension_of(filename@) == Some(ext@) && stem(filename@, ext@) == Some(base@)
                        && first_free(used, base@, ext@, w) && c@ == candidate(base@, w, ext@));
                }
                return Ok(c);
            }
            proof {
                lemma_remaining_shrinks(used, base@, ext@, i as nat);
            }
            i = i + 1;
        }
    }
}

fn candidate_name(base: &str, i: u64, ext: &str) -> (r: String)
    ensures
        r@ == candidate(base@, i as nat, ext@),
{
    let mut s = String::from_str(base);
    push_str(&mut s, "-");
    push_decimal(&mut s, i);
    push_str(&mut s, ".");
    push_str(&mut s, ext);
    s
}

fn trim_dots_of(s: &str) -> (r: String)
    ensures
        r@ == trim_dots(s@),
{
    let n = s.unicode_len();
    let mut a: usize = 0;
    let mut more = true;
    assert(s@.skip(0) =~= s@);
    while more && a < n
        invariant
            n == s@.len(),
            0 <= a <= n,
            trim_start_dots(s@) == trim_start_dots(s@.skip(a as int)),
            !more ==> a < n && s@[a as int] != '.',
        decreases n - a + if more { 1int } else { 0int },
    {
        if s.get_char(a) == '.' {
            assert(s@.skip(a as int).drop_first() =~= s@.skip(a + 1));
            a = a + 1;
        } else {
            more = false;
        }
    }
    assert(trim_start_dots(s@) == s@.skip(a as int)) by {
        if a == n {
            assert(s@.skip(a as int).len() == 0);
        }
    }
    let ghost t = s@.skip(a as int);
    let mut b: usize = n - a;
    more = true;
    assert(t.take(b as int) =~= t);
    while more && b > 0
        invariant
            n == s@.len(),
            0 <= a <= n,
            t == s@.skip(a as int),
            0 <= b <= n - a,
            trim_end_dots(t) == trim_end_dots(t.take(b as int)),
            !more ==> b > 0 && t[b - 1] != '.',
        decreases b + if more { 1int } else { 0int },
    {
        if s.get_char(a + b - 1) == '.' {
            assert(t.take(b as int).drop_last() =~= t.take(b - 1));
            b = b - 1;
        } else {
            more = false;
        }
    }
    assert(trim_end_dots(t.take(b as int)) == t.take(b as int));
    let r = String::from_str(s.substring_char(a, a + b));
    assert(r@ =~= t.take(b as int));
    r
}

fn stem_of(name: &str, ext: &str) -> (r: Option<String>)
    ensures
        match r {
            Some(b) => stem(name@, ext@) == Some(b@),
            None => stem(name@, ext@) is None,
        },
{
    let n = name.unicode_len();
    let m = ext.unicode_len();
    if m > n {
        return None;
    }
    let mut i: usize = 0;
    while i < m
        invariant
            n == name@.len(),
            m == ext@.len(),
            m <= n,
            0 <= i <= m,
            forall|j: int| 0 <= j < i ==> name@[n - m + j] == ext@[j],
        decreases m - i,
    {
        if name.get_char(n - m + i) != ext.get_char(i) {
            assert(name@.skip(n - m)[i as int] != ext@[i as int]);
            return None;
        }
        i = i + 1;
    }
    assert(name@.skip(n - m) =~= ext@);
    Some(trim_dots_of(name.substring_char(0, n - m)))
}

} // verus!
