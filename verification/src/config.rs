//! Editor configuration: per-extension language settings layered over a
//! built-in default table. Reading the on-disk file happens outside; this
//! module owns the lookup rules. Every setting is answered per key: within
//! a layer the extension's entry answers first and the layer's fallback
//! entry answers for whatever the extension's entry leaves unset; only when
//! a whole layer leaves a key unset does the next layer answer.
use vstd::prelude::*;

verus! {

/// The settings one language (file extension) may carry.
#[derive(Debug)]
pub struct LanguageConfig {
    pub ansi_color: Option<bool>,
    pub snippets: Vec<(String, String)>,
    pub indent_width: Option<usize>,
    pub lsp: Option<Vec<String>>,
    pub formatter: Option<Vec<String>>,
    pub syntax: Option<String>,
    pub compiler: Option<Vec<String>>,
}

impl Default for LanguageConfig {
    /// A language with nothing configured.
    fn default() -> (r: Self)
        ensures
            r.ansi_color is None,
            r.snippets@ == Seq::<(String, String)>::empty(),
            r.indent_width is None,
            r.lsp is None,
            r.formatter is None,
            r.syntax is None,
            r.compiler is None,
    {
        LanguageConfig {
            ansi_color: None,
            snippets: Vec::new(),
            indent_width: None,
            lsp: None,
            formatter: None,
            syntax: None,
            compiler: None,
        }
    }
}

/// The first entry for `ext`, in table order.
pub open spec fn table_get<T>(entries: Seq<(String, T)>, ext: Seq<char>) -> Option<int>
    decreases entries.len(),
{
    if entries.len() == 0 {
        None
    } else if entries[0].0@ == ext {
        Some(0)
    } else {
        match table_get(entries.skip(1), ext) {
            Some(i) => Some(i + 1),
            None => None,
        }
    }
}

/// Whether some pair of `pairs` carries `name`.
pub open spec fn has_name(pairs: Seq<(String, String)>, name: Seq<char>) -> bool {
    exists|i: int| 0 <= i < pairs.len() && pairs[i].0@ == name
}

/// The pairs of `own` whose names `other` does not carry, in order.
pub open spec fn minus_names(
    own: Seq<(String, String)>,
    other: Seq<(String, String)>,
) -> Seq<(String, String)>
    decreases own.len(),
{
    if own.len() == 0 {
        Seq::empty()
    } else {
        let rest = minus_names(own.drop_last(), other);
        if has_name(other, own.last().0@) {
            rest
        } else {
            rest.push(own.last())
        }
    }
}

/// One layer of configuration: per-extension tables plus a fallback entry
/// that answers, key by key, for whatever the extension's entry leaves
/// unset.
#[derive(Debug)]
pub struct Config {
    pub file: Vec<(String, LanguageConfig)>,
    pub file_default: Option<LanguageConfig>,
}

impl Default for Config {
    /// An empty layer: no per-extension entries, no fallback.
    fn default() -> (r: Self)
        ensures
            r.file@ == Seq::<(String, LanguageConfig)>::empty(),
            r.file_default is None,
    {
        Config { file: Vec::new(), file_default: None }
    }
}

impl Config {
    /// The per-extension entry for `ext` in this layer, without the
    /// fallback: the fallback enters the lookup per key, not as a whole.
    pub open spec fn spec_entry(self, ext: Seq<char>) -> Option<LanguageConfig> {
        match table_get(self.file@, ext) {
            Some(i) => Some(self.file@[i].1),
            None => None,
        }
    }

    /// The indent width this layer answers for `ext`: the extension
    /// entry's where it sets one, else the fallback entry's.
    pub open spec fn spec_indent_width(self, ext: Seq<char>) -> Option<usize> {
        let fallback = match self.file_default {
            Some(d) => d.indent_width,
            None => None,
        };
        match self.spec_entry(ext) {
            Some(lc) => if lc.indent_width is Some {
                lc.indent_width
            } else {
                fallback
            },
            None => fallback,
        }
    }

    /// The language-server command this layer answers for `ext`.
    pub open spec fn spec_lsp(self, ext: Seq<char>) -> Option<Vec<String>> {
        let fallback = match self.file_default {
            Some(d) => d.lsp,
            None => None,
        };
        match self.spec_entry(ext) {
            Some(lc) => if lc.lsp is Some {
                lc.lsp
            } else {
                fallback
            },
            None => fallback,
        }
    }

    /// The compiler command this layer answers for `ext`.
    pub open spec fn spec_compiler(self, ext: Seq<char>) -> Option<Vec<String>> {
        let fallback = match self.file_default {
            Some(d) => d.compiler,
            None => None,
        };
        match self.spec_entry(ext) {
            Some(lc) => if lc.compiler is Some {
                lc.compiler
            } else {
                fallback
            },
            None => fallback,
        }
    }

    /// The per-extension entry for `extension`, if the table carries one.
    pub fn entry(&self, extension: &String) -> (r: Option<&LanguageConfig>)
        ensures
            match r {
                Some(lc) => self.spec_entry(extension@) == Some(*lc),
                None => self.spec_entry(extension@) is None,
            },
    {
        let n = self.file.len();
        let mut i: usize = 0;
        proof {
            assert(self.file@.skip(0) =~= self.file@);
        }
        while i < n
            invariant
                0 <= i <= n,
                n == self.file@.len(),
                table_get(self.file@, extension@) == match table_get(
                    self.file@.skip(i as int),
                    extension@,
                ) {
                    Some(k) => Some(k + i),
                    None => Option::<int>::None,
                },
            decreases n - i,
        {
            if self.file[i].0 == *extension {
                proof {
                    assert(self.file@.skip(i as int)[0] == self.file@[i as int]);
                }
                return Some(&self.file[i].1);
            }
            proof {
                assert(self.file@.skip(i as int)[0] == self.file@[i as int]);
                assert(self.file@.skip(i as int).skip(1) =~= self.file@.skip(i as int + 1));
            }
            i += 1;
        }
        proof {
            assert(self.file@.skip(n as int) =~= Seq::<(String, LanguageConfig)>::empty());
        }
        None
    }

    /// The indent width this layer answers for `extension`.
    pub fn indent_width(&self, extension: &String) -> (r: Option<usize>)
        ensures
            r == self.spec_indent_width(extension@),
    {
        match self.entry(extension) {
            Some(lc) => if lc.indent_width.is_some() {
                return lc.indent_width;
            },
            None => {},
        }
        match &self.file_default {
            Some(d) => d.indent_width,
            None => None,
        }
    }

    /// The language-server command this layer answers for `extension`.
    pub fn lsp(&self, extension: &String) -> (r: Option<&Vec<String>>)
        ensures
            match r {
                Some(v) => self.spec_lsp(extension@) == Some(*v),
                None => self.spec_lsp(extension@) is None,
            },
    {
        match self.entry(extension) {
            Some(lc) => if lc.lsp.is_some() {
                return lc.lsp.as_ref();
            },
            None => {},
        }
        match &self.file_default {
            Some(d) => d.lsp.as_ref(),
            None => None,
        }
    }

    /// The compiler command this layer answers for `extension`.
    pub fn compiler(&self, extension: &String) -> (r: Option<&Vec<String>>)
        ensures
            match r {
                Some(v) => self.spec_compiler(extension@) == Some(*v),
                None => self.spec_compiler(extension@) is None,
            },
    {
        match self.entry(extension) {
            Some(lc) => if lc.compiler.is_some() {
                return lc.compiler.as_ref();
            },
            None => {},
        }
        match &self.file_default {
            Some(d) => d.compiler.as_ref(),
            None => None,
        }
    }
}

/// The parsed configuration layered over the built-in defaults: each key is
/// answered by the parsed layer where it sets one, else by the defaults.
#[derive(Debug)]
pub struct ConfigWithDefault {
    pub default: Config,
    pub config: Config,
}

impl ConfigWithDefault {
    /// The indent width configured for `ext`, the parsed layer first.
    pub open spec fn spec_indent_width(self, ext: Seq<char>) -> Option<usize> {
        if self.config.spec_indent_width(ext) is Some {
            self.config.spec_indent_width(ext)
        } else {
            self.default.spec_indent_width(ext)
        }
    }

    /// The language-server command configured for `ext`, the parsed layer
    /// first.
    pub open spec fn spec_lsp(self, ext: Seq<char>) -> Option<Vec<String>> {
        if self.config.spec_lsp(ext) is Some {
            self.config.spec_lsp(ext)
        } else {
            self.default.spec_lsp(ext)
        }
    }

    /// The compiler command configured for `ext`, the parsed layer first.
    pub open spec fn spec_compiler(self, ext: Seq<char>) -> Option<Vec<String>> {
        if self.config.spec_compiler(ext) is Some {
            self.config.spec_compiler(ext)
        } else {
            self.default.spec_compiler(ext)
        }
    }

    /// The snippet table for `ext`: the parsed layer's extension entry
    /// merged with the same layer's fallback entry, the fallback winning on
    /// a duplicate name; the built-in defaults contribute no snippets.
    pub open spec fn spec_snippets(self, ext: Seq<char>) -> Seq<(String, String)> {
        let own = match self.config.spec_entry(ext) {
            Some(lc) => lc.snippets@,
            None => Seq::empty(),
        };
        let fd = match self.config.file_default {
            Some(d) => d.snippets@,
            None => Seq::<(String, String)>::empty(),
        };
        minus_names(own, fd) + fd
    }

    /// The indent width for `extension`: the parsed configuration's where
    /// it sets one, else the default table's.
    pub fn get_indent_width(&self, extension: &String) -> (r: Option<usize>)
        ensures
            r == self.spec_indent_width(extension@),
    {
        match self.config.indent_width(extension) {
            Some(w) => Some(w),
            None => self.default.indent_width(extension),
        }
    }

    /// The language-server command for `extension`: the parsed
    /// configuration's where it sets one, else the default table's.
    pub fn get_lsp(&self, extension: &String) -> (r: Option<&Vec<String>>)
        ensures
            match r {
                Some(v) => self.spec_lsp(extension@) == Some(*v),
                None => self.spec_lsp(extension@) is None,
            },
    {
        match self.config.lsp(extension) {
            Some(v) => Some(v),
            None => self.default.lsp(extension),
        }
    }

    /// The compiler command for `extension`: the parsed configuration's
    /// where it sets one, else the default table's.
    pub fn get_compiler(&self, extension: &String) -> (r: Option<&Vec<String>>)
        ensures
            match r {
                Some(v) => self.spec_compiler(extension@) == Some(*v),
                None => self.spec_compiler(extension@) is None,
            },
    {
        match self.config.compiler(extension) {
            Some(v) => Some(v),
            None => self.default.compiler(extension),
        }
    }

    /// The snippets for `extension`: the parsed layer's entry merged with
    /// the same layer's fallback, the fallback's body winning on a
    /// duplicate name.
    pub fn snippets(&self, extension: &String) -> (r: Vec<(String, String)>)
        ensures
            r@ == self.spec_snippets(extension@),
    {
        let mut out: Vec<(String, String)> = Vec::new();
        let ghost own = match self.config.spec_entry(extension@) {
            Some(lc) => lc.snippets@,
            None => Seq::<(String, String)>::empty(),
        };
        let ghost fd = match &self.config.file_default {
            Some(d) => d.snippets@,
            None => Seq::<(String, String)>::empty(),
        };
        match self.config.entry(extension) {
            Some(lc) => {
                match &self.config.file_default {
                    Some(d) => {
                        pairs_minus(&lc.snippets, &d.snippets, &mut out);
                    },
                    None => {
                        copy_pairs(&lc.snippets, &mut out);
                        proof {
                            lemma_minus_empty(own);
                        }
                    },
                }
            },
            None => {
                proof {
                    assert(minus_names(own, fd) =~= Seq::<(String, String)>::empty());
                }
            },
        }
        proof {
            assert(out@ =~= minus_names(own, fd));
        }
        match &self.config.file_default {
            Some(d) => {
                copy_pairs(&d.snippets, &mut out);
            },
            None => {},
        }
        proof {
            assert(out@ =~= minus_names(own, fd) + fd);
        }
        out
    }
}

/// Subtracting an empty table keeps every pair.
proof fn lemma_minus_empty(own: Seq<(String, String)>)
    ensures
        minus_names(own, Seq::empty()) =~= own,
    decreases own.len(),
{
    if own.len() > 0 {
        lemma_minus_empty(own.drop_last());
    }
}

/// Appends clones of the pairs of `own` whose names `other` does not carry.
fn pairs_minus(
    own: &Vec<(String, String)>,
    other: &Vec<(String, String)>,
    out: &mut Vec<(String, String)>,
)
    ensures
        final(out)@ == old(out)@ + minus_names(own@, other@),
{
    let n = own.len();
    let mut i: usize = 0;
    proof {
        assert(out@ =~= old(out)@ + minus_names(own@.take(0), other@));
    }
    while i < n
        invariant
            0 <= i <= n,
            n == own@.len(),
            out@ == old(out)@ + minus_names(own@.take(i as int), other@),
        decreases n - i,
    {
        proof {
            assert(own@.take(i as int + 1).drop_last() =~= own@.take(i as int));
            assert(own@.take(i as int + 1).last() == own@[i as int]);
        }
        if !name_in(other, &own[i].0) {
            let (k, v) = (own[i].0.clone(), own[i].1.clone());
            out.push((k, v));
        }
        proof {
            assert(out@ =~= old(out)@ + minus_names(own@.take(i as int + 1), other@));
        }
        i += 1;
    }
    proof {
        assert(own@.take(n as int) =~= own@);
    }
}

/// Whether some pair of `pairs` carries `name`.
fn name_in(pairs: &Vec<(String, String)>, name: &String) -> (r: bool)
    ensures
        r == has_name(pairs@, name@),
{
    let n = pairs.len();
    let mut i: usize = 0;
    while i < n
        invariant
            0 <= i <= n,
            n == pairs@.len(),
            forall|k: int| 0 <= k < i ==> pairs@[k].0@ != name@,
        decreases n - i,
    {
        if pairs[i].0 == *name {
            proof {
                assert(pairs@[i as int].0@ == name@);
            }
            return true;
        }
        i += 1;
    }
    false
}

/// Appends clones of all name/body pairs.
fn copy_pairs(src: &Vec<(String, String)>, out: &mut Vec<(String, String)>)
    ensures
        final(out)@ == old(out)@ + src@,
{
    let n = src.len();
    let mut i: usize = 0;
    proof {
        assert(out@ =~= old(out)@ + src@.take(0));
    }
    while i < n
        invariant
            0 <= i <= n,
            n == src@.len(),
            out@ == old(out)@ + src@.take(i as int),
        decreases n - i,
    {
        let (k, v) = (src[i].0.clone(), src[i].1.clone());
        out.push((k, v));
        proof {
            assert(out@ =~= old(out)@ + src@.take(i as int + 1));
        }
        i += 1;
    }
    proof {
        assert(src@.take(n as int) =~= src@);
    }
}

} // verus!
