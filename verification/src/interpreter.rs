//! Compiler-facing configuration and diagnostics: the widget style, the
//! named library paths handed to the UI compiler, and the joining of compile
//! diagnostics into the single message reported to the host script.

use crate::fmt::dec_str;
use crate::fmt::usize_string;
use crate::value::str_eq;
use vstd::prelude::*;

verus! {

/// The configuration the UI compiler is built from: an optional widget
/// style and a map from library names to filesystem paths.
pub struct CompilerConfig {
    style: Option<String>,
    paths: Vec<(String, String)>,
}

impl CompilerConfig {
    /// Well-formedness: library names are unique.  Every operation
    /// preserves it.
    pub closed spec fn wf(self) -> bool {
        forall|i: int, j: int|
            0 <= i < j < self.paths@.len() ==> (#[trigger] self.paths@[i]).0@ != (
            #[trigger] self.paths@[j]).0@
    }

    /// The configured style, if one is set.
    pub closed spec fn style_spec(self) -> Option<Seq<char>> {
        match self.style {
            Some(s) => Some(s@),
            None => None,
        }
    }

    /// The path registered under a library name, if any.
    pub closed spec fn lookup(self, name: Seq<char>) -> Option<Seq<char>> {
        if exists|i: int| 0 <= i < self.paths@.len() && (#[trigger] self.paths@[i]).0@ == name {
            let i = choose|i: int|
                0 <= i < self.paths@.len() && (#[trigger] self.paths@[i]).0@ == name;
            Some(self.paths@[i].1@)
        } else {
            None
        }
    }

    proof fn lemma_lookup(self, name: Seq<char>, i: int)
        requires
            self.wf(),
            0 <= i < self.paths@.len(),
            self.paths@[i].0@ == name,
        ensures
            self.lookup(name) == Some(self.paths@[i].1@),
    {
        let w = choose|w: int|
            0 <= w < self.paths@.len() && (#[trigger] self.paths@[w]).0@ == name;
        if w != i {
            assert(self.paths@[w].0@ != self.paths@[i].0@);
        }
    }

    /// A fresh configuration: no style, no library paths.
    pub fn new() -> (r: CompilerConfig)
        ensures
            r.wf(),
            r.style_spec() is None,
            forall|n: Seq<char>| r.lookup(n) is None,
    {
        CompilerConfig { style: None, paths: Vec::new() }
    }

    /// Sets the widget style; the empty string clears it.
    pub fn set_style(&mut self, style: &str)
        requires
            old(self).wf(),
        ensures
            final(self).wf(),
            final(self).style_spec() == if style@.len() == 0 {
                Option::<Seq<char>>::None
            } else {
                Option::<Seq<char>>::Some(style@)
            },
            forall|n: Seq<char>| final(self).lookup(n) == old(self).lookup(n),
    {
        if style.unicode_len() == 0 {
            self.style = None;
        } else {
            self.style = Some(String::from_str(style));
        }
        proof {
            assert(self.paths@ == old(self).paths@);
            assert forall|n: Seq<char>| final(self).lookup(n) == old(self).lookup(n) by {}
        }
    }

    /// The configured style, if one is set.
    pub fn get_style(&self) -> (r: Option<String>)
        ensures
            match r {
                Some(s) => self.style_spec() == Some(s@),
                None => self.style_spec() is None,
            },
    {
        match &self.style {
            Some(s) => Some(s.clone()),
            None => None,
        }
    }

    fn find(&self, name: &str) -> (r: Option<usize>)
        requires
            self.wf(),
        ensures
            match r {
                Some(i) => i < self.paths@.len() && self.paths@[i as int].0@ == name@
                    && self.lookup(name@) == Some(self.paths@[i as int].1@),
                None => self.lookup(name@) is None,
            },
    {
        let n = self.paths.len();
        let mut i: usize = 0;
        while i < n
            invariant
                self.wf(),
                n == self.paths@.len(),
                0 <= i <= n,
                forall|j: int| 0 <= j < i ==> (#[trigger] self.paths@[j]).0@ != name@,
            decreases n - i,
        {
            if str_eq(self.paths[i].0.as_str(), name) {
                proof {
                    self.lemma_lookup(name@, i as int);
                }
                return Some(i);
            }
            i += 1;
        }
        proof {
            if self.lookup(name@) is Some {
                let w = choose|w: int|
                    0 <= w < self.paths@.len() && (#[trigger] self.paths@[w]).0@ == name@;
            }
        }
        None
    }

    /// Registers `path` under `name`, replacing any path the name already
    /// had and touching no other name.
    pub fn add_library_path(&mut self, name: &str, path: &str)
        requires
            old(self).wf(),
        ensures
            final(self).wf(),
            final(self).style_spec() == old(self).style_spec(),
            final(self).lookup(name@) == Some(path@),
            forall|n: Seq<char>| n != name@ ==> final(self).lookup(n) == old(self).lookup(n),
    {
        let ghost prev = *self;
        let entry = (String::from_str(name), String::from_str(path));
        match self.find(name) {
            Some(i) => {
                self.paths.remove(i);
                self.paths.insert(i, entry);
                proof {
                    assert(self.paths@ =~= prev.paths@.update(i as int, self.paths@[i as int]));
                    assert(self.wf());
                    self.lemma_lookup(name@, i as int);
                    assert forall|n: Seq<char>| n != name@ implies final(self).lookup(n) == prev.lookup(
                        n,
                    ) by {
                        Self::lemma_lookup_frame(prev, *self, i as int, n);
                    }
                }
            },
            None => {
                self.paths.push(entry);
                proof {
                    let ghost m = prev.paths@.len() as int;
                    assert(self.paths@ =~= prev.paths@.push(self.paths@[m]));
                    assert forall|i: int, j: int|
                        0 <= i < j < self.paths@.len() implies (#[trigger] self.paths@[i]).0@ != (
                    #[trigger] self.paths@[j]).0@ by {
                        if j < m {
                        } else {
                            assert(self.paths@[j].0@ == name@);
                            if i < m {
                                assert(self.paths@[i] == prev.paths@[i]);
                                if prev.paths@[i].0@ == name@ {
                                    prev.lemma_lookup(name@, i);
                                }
                            }
                        }
                    }
                    self.lemma_lookup(name@, m);
                    assert forall|n: Seq<char>| n != name@ implies final(self).lookup(n) == prev.lookup(
                        n,
                    ) by {
                        Self::lemma_lookup_frame(prev, *self, m, n);
                    }
                }
            },
        }
    }

    proof fn lemma_lookup_frame(prev: CompilerConfig, cur: CompilerConfig, t: int, n: Seq<char>)
        requires
            prev.wf(),
            cur.wf(),
            0 <= t < cur.paths@.len(),
            prev.paths@.len() == cur.paths@.len() || prev.paths@.len() + 1 == cur.paths@.len(),
            prev.paths@.len() + 1 == cur.paths@.len() ==> t == prev.paths@.len(),
            forall|j: int|
                0 <= j < cur.paths@.len() && j != t ==> #[trigger] cur.paths@[j]
                    == prev.paths@[j],
            t < prev.paths@.len() ==> prev.paths@[t].0@ == cur.paths@[t].0@,
            n != cur.paths@[t].0@,
        ensures
            cur.lookup(n) == prev.lookup(n),
    {
        if cur.lookup(n) is Some {
            let w = choose|w: int|
                0 <= w < cur.paths@.len() && (#[trigger] cur.paths@[w]).0@ == n;
            assert(w != t);
            assert(w < prev.paths@.len());
            prev.lemma_lookup(n, w);
            cur.lemma_lookup(n, w);
        }
        if prev.lookup(n) is Some {
            let w = choose|w: int|
                0 <= w < prev.paths@.len() && (#[trigger] prev.paths@[w]).0@ == n;
            assert(w != t);
            assert(cur.paths@[w] == prev.paths@[w]);
            cur.lemma_lookup(n, w);
            prev.lemma_lookup(n, w);
        }
    }

    /// Drops the path registered under `name`, if any, touching no other
    /// name.
    pub fn remove_library_path(&mut self, name: &str)
        requires
            old(self).wf(),
        ensures
            final(self).wf(),
            final(self).style_spec() == old(self).style_spec(),
            final(self).lookup(name@) is None,
            forall|n: Seq<char>| n != name@ ==> final(self).lookup(n) == old(self).lookup(n),
    {
        let ghost prev = *self;
        match self.find(name) {
            None => {},
            Some(i) => {
                self.paths.remove(i);
                proof {
                    let m = prev.paths@.len() as int;
                    assert(forall|j: int| 0 <= j < i ==> self.paths@[j] == prev.paths@[j]);
                    assert(forall|j: int|
                        i <= j < m - 1 ==> self.paths@[j] == prev.paths@[j + 1]);
                    assert forall|a: int, b: int|
                        0 <= a < b < self.paths@.len() implies (#[trigger] self.paths@[a]).0@ != (
                    #[trigger] self.paths@[b]).0@ by {
                        let a2: int = if a < i {
                            a
                        } else {
                            a + 1
                        };
                        let b2: int = if b < i {
                            b
                        } else {
                            b + 1
                        };
                        assert(self.paths@[a] == prev.paths@[a2]);
                        assert(self.paths@[b] == prev.paths@[b2]);
                    }
                    if final(self).lookup(name@) is Some {
                        let w = choose|w: int|
                            0 <= w < self.paths@.len() && (#[trigger] self.paths@[w]).0@ == name@;
                        let w2: int = if w < i {
                            w
                        } else {
                            w + 1
                        };
                        assert(prev.paths@[w2].0@ == name@);
                        assert(w2 != i);
                        assert(prev.paths@[i as int].0@ == name@);
                    }
                    assert forall|n: Seq<char>| n != name@ implies final(self).lookup(n)
                        == prev.lookup(n) by {
                        if final(self).lookup(n) is Some {
                            let w = choose|w: int|
                                0 <= w < self.paths@.len() && (#[trigger] self.paths@[w]).0@ == n;
                            let w2: int = if w < i {
                                w
                            } else {
                                w + 1
                            };
                            assert(prev.paths@[w2].0@ == n);
                            prev.lemma_lookup(n, w2);
                            self.lemma_lookup(n, w);
                        }
                        if prev.lookup(n) is Some {
                            let w2 = choose|w2: int|
                                0 <= w2 < prev.paths@.len() && (#[trigger] prev.paths@[w2]).0@
                                    == n;
                            assert(w2 != i);
                            let w: int = if w2 < i {
                                w2
                            } else {
                                w2 - 1
                            };
                            assert(self.paths@[w].0@ == n);
                            prev.lemma_lookup(n, w2);
                            self.lemma_lookup(n, w);
                        }
                    }
                }
            },
        }
    }

    /// Drops every registered library path.
    pub fn clear_library_paths(&mut self)
        requires
            old(self).wf(),
        ensures
            final(self).wf(),
            final(self).style_spec() == old(self).style_spec(),
            forall|n: Seq<char>| final(self).lookup(n) is None,
    {
        self.paths = Vec::new();
    }
}

/// One compile diagnostic: the line and column it points at and its
/// message.
pub struct Diagnostic {
    pub line: usize,
    pub column: usize,
    pub message: String,
}

/// The reported form of one diagnostic: `line:column: message`.
pub open spec fn diag_line(line: nat, column: nat, message: Seq<char>) -> Seq<char> {
    dec_str(line) + ":"@ + dec_str(column) + ": "@ + message
}

/// All diagnostics up to index `i`, one per line, in order.
pub open spec fn joined_diags(ds: Seq<Diagnostic>, i: int) -> Seq<char>
    decreases i,
{
    if i <= 0 {
        Seq::empty()
    } else if i == 1 {
        diag_line(ds[0].line as nat, ds[0].column as nat, ds[0].message@)
    } else {
        joined_diags(ds, i - 1) + "\n"@ + diag_line(
            ds[i - 1].line as nat,
            ds[i - 1].column as nat,
            ds[i - 1].message@,
        )
    }
}

/// Picks the component a successful compile yields: the first name the
/// compiler reported, or — when it reported none — the error naming the
/// source path.
pub fn first_component_name(names: &Vec<String>, path: &str) -> (r: Result<String, String>)
    ensures
        match r {
            Ok(n) => names@.len() > 0 && n@ == names@[0]@,
            Err(e) => names@.len() == 0 && e@ == "No component found in '"@ + path@ + "'"@,
        },
{
    if names.len() == 0 {
        let mut e = String::from_str("No component found in '");
        e.append(path);
        e.append("'");
        proof {
            assert(e@ =~= "No component found in '"@ + path@ + "'"@);
        }
        Err(e)
    } else {
        Ok(names[0].clone())
    }
}

/// Joins compile diagnostics into the single error message reported to the
/// host: one `line:column: message` per line, in their original order.
pub fn join_diagnostics(ds: &Vec<Diagnostic>) -> (r: String)
    ensures
        r@ == joined_diags(ds@, ds@.len() as int),
{
    let n = ds.len();
    let mut out = String::new();
    let mut i: usize = 0;
    while i < n
        invariant
            n == ds@.len(),
            0 <= i <= n,
            out@ == joined_diags(ds@, i as int),
        decreases n - i,
    {
        if i > 0 {
            out.append("\n");
        }
        out.append(usize_string(ds[i].line).as_str());
        out.append(":");
        out.append(usize_string(ds[i].column).as_str());
        out.append(": ");
        out.append(ds[i].message.as_str());
        proof {
            assert(out@ =~= joined_diags(ds@, i + 1));
        }
        i += 1;
    }
    out
}

} // verus!
