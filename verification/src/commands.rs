//! Compilation-database entries: the build command of each source file, the
//! derivation of its output path, and freshness decisions over file
//! modification times.  Reading the database from disk and probing file
//! times belong to the surrounding program; the rules that interpret them
//! live here.

use vstd::prelude::*;

verus! {

/// The words of a shell command line, as POSIX word splitting produces them;
/// `None` when the quoting is erroneous.  This names the result of
/// `shlex::split`.
pub uninterp spec fn shlex_split_of(s: Seq<char>) -> Option<Seq<Seq<char>>>;

/// The texts of a word list
pub open spec fn words_view(v: Seq<String>) -> Seq<Seq<char>>
    decreases v,
{
    if v.len() == 0 {
        Seq::empty()
    } else {
        words_view(v.drop_last()).push(v.last()@)
    }
}

/// Length and elements of a word-list view
pub proof fn lemma_words_view_index(v: Seq<String>)
    ensures
        words_view(v).len() == v.len(),
        forall|i: int| 0 <= i < v.len() ==> words_view(v)[i] == (#[trigger] v[i])@,
    decreases v,
{
    if v.len() > 0 {
        lemma_words_view_index(v.drop_last());
        assert forall|i: int| 0 <= i < v.len() implies words_view(v)[i] == (#[trigger] v[i])@ by {
            if i < v.len() - 1 {
                assert(v.drop_last()[i] == v[i]);
                assert(words_view(v)[i] == words_view(v.drop_last())[i]);
            } else {
                assert(v[i] == v.last());
            }
        }
    }
}

/// Relies on `shlex::split` for POSIX-shell word splitting of a command
/// line; the result depends on the string alone.
#[verifier::external_body]
fn shell_split(s: &str) -> (r: Option<Vec<String>>)
    ensures
        match r {
            Some(v) => shlex_split_of(s@) == Some(words_view(v@)),
            None => shlex_split_of(s@) is None,
        },
{
    shlex::split(s)
}

/// One entry from the compilation database
#[derive(Debug, PartialEq, Eq)]
pub struct Entry {
    /// Working directory for the build command
    pub directory: String,
    /// Build command
    pub command: String,
    /// Input file path
    pub file: String,
}

/// Join a path onto a base directory: an absolute path replaces the base.
pub open spec fn sp_path_join(base: Seq<char>, rel: Seq<char>) -> Seq<char> {
    if rel.len() > 0 && rel[0] == '/' {
        rel
    } else if rel.len() == 0 {
        base
    } else if base.len() == 0 {
        rel
    } else if base[base.len() - 1] == '/' {
        base + rel
    } else {
        base + seq!['/'] + rel
    }
}

/// Index one past the last `/` in `p`, or 0 when there is none
pub open spec fn sp_after_last_slash(p: Seq<char>, i: int) -> int
    decreases i when 0 <= i <= p.len()
{
    if i <= 0 {
        0
    } else if p[i - 1] == '/' {
        i
    } else {
        sp_after_last_slash(p, i - 1)
    }
}

/// Length of `p` with trailing slashes removed
pub open spec fn sp_strip_slashes(p: Seq<char>, i: int) -> int
    decreases i when 0 <= i <= p.len()
{
    if i > 0 && p[i - 1] == '/' {
        sp_strip_slashes(p, i - 1)
    } else {
        i
    }
}

/// The file-name component of a relative output path, if it has one
pub open spec fn sp_file_name(p: Seq<char>) -> Option<Seq<char>> {
    let e = sp_strip_slashes(p, p.len() as int);
    let b = sp_after_last_slash(p, e);
    let seg = p.subrange(b, e);
    if seg.len() == 0 || seg == ".."@ || seg == "."@ {
        None
    } else {
        Some(seg)
    }
}

/// First position of the word after a `-o` flag in `args`, if any
pub open spec fn sp_after_o_flag(args: Seq<Seq<char>>, i: int) -> Option<int>
    decreases args.len() - i when 0 <= i <= args.len()
{
    if i >= args.len() {
        None
    } else if args[i] == "-o"@ {
        if i + 1 < args.len() {
            Some(i + 1)
        } else {
            None
        }
    } else {
        sp_after_o_flag(args, i + 1)
    }
}

/// The output path of a build command: the word after `-o`, interpreted
/// relative to the working directory.
pub open spec fn sp_output(dir: Seq<char>, command: Seq<char>) -> Option<Seq<char>> {
    match shlex_split_of(command) {
        None => None,
        Some(ws) => {
            if ws.len() == 0 {
                None
            } else {
                let args = ws.subrange(1, ws.len() as int);
                match sp_after_o_flag(args, 0) {
                    None => None,
                    Some(j) => {
                        let rel = args[j];
                        match sp_file_name(rel) {
                            None => None,
                            Some(seg) => {
                                let parent = rel.subrange(0, sp_after_last_slash(
                                    rel,
                                    sp_strip_slashes(rel, rel.len() as int),
                                ));
                                Some(sp_path_join(sp_path_join(dir, parent), seg))
                            },
                        }
                    },
                }
            }
        },
    }
}

impl Entry {
    /// Working directory
    pub fn current_dir(&self) -> (r: &String)
        ensures
            r@ == self.directory@,
    {
        &self.directory
    }

    /// Input file path
    pub fn input(&self) -> (r: &String)
        ensures
            r@ == self.file@,
    {
        &self.file
    }

    /// Executable of the build command, when the command has one
    pub fn program(&self) -> (r: Option<String>)
        ensures
            match r {
                Some(p) => {
                    &&& shlex_split_of(self.command@) is Some
                    &&& shlex_split_of(self.command@).unwrap().len() > 0
                    &&& p@ == shlex_split_of(self.command@).unwrap()[0]
                },
                None => match shlex_split_of(self.command@) {
                    Some(ws) => ws.len() == 0,
                    None => true,
                },
            },
    {
        match shell_split(self.command.as_str()) {
            Some(words) => {
                if words.len() > 0 {
                    let w = words[0].clone();
                    proof {
                        lemma_words_view_index(words@);
                        assert(w@ == shlex_split_of(self.command@).unwrap()[0]);
                    }
                    Some(w)
                } else {
                    proof {
                        lemma_words_view_index(words@);
                    }
                    None
                }
            },
            None => None,
        }
    }

    /// Arguments to the executable: every word after the first, or nothing
    /// when the command cannot be split
    pub fn args(&self) -> (r: Vec<String>)
        ensures
            match shlex_split_of(self.command@) {
                Some(ws) => if ws.len() > 0 {
                    words_view(r@) == ws.subrange(1, ws.len() as int)
                } else {
                    words_view(r@) == Seq::<Seq<char>>::empty()
                },
                None => words_view(r@) == Seq::<Seq<char>>::empty(),
            },
    {
        match shell_split(self.command.as_str()) {
            Some(words) => {
                let ghost ws = shlex_split_of(self.command@).unwrap();
                proof {
                    lemma_words_view_index(words@);
                }
                let mut out: Vec<String> = Vec::new();
                if words.len() == 0 {
                    assert(words_view(out@) =~= Seq::<Seq<char>>::empty());
                    return out;
                }
                let mut i: usize = 1;
                while i < words.len()
                    invariant
                        1 <= i <= words@.len(),
                        words_view(words@) == ws,
                        words_view(out@) =~= ws.subrange(1, i as int),
                    decreases words@.len() - i,
                {
                    let w = words[i].clone();
                    let ghost prev = out@;
                    out.push(w);
                    proof {
                        lemma_words_view_index(words@);
                        lemma_words_view_index(prev);
                        lemma_words_view_index(out@);
                        assert(out@ == prev.push(words@[i as int]));
                        assert(ws[i as int] == words@[i as int]@);
                        assert forall|j: int| 0 <= j < out@.len()
                            implies #[trigger] words_view(out@)[j]
                                == ws.subrange(1, i + 1)[j] by {
                            if j < prev.len() {
                                assert(out@[j] == prev[j]);
                                assert(words_view(prev)[j] == ws.subrange(1, i as int)[j]);
                            } else {
                                assert(out@[j] == words@[i as int]);
                            }
                        }
                        assert(words_view(out@) =~= ws.subrange(1, i + 1));
                    }
                    i = i + 1;
                }
                assert(words_view(out@) =~= ws.subrange(1, ws.len() as int));
                out
            },
            None => {
                let out: Vec<String> = Vec::new();
                assert(words_view(out@) =~= Seq::<Seq<char>>::empty());
                out
            },
        }
    }

    /// Output file path, assuming a GCC-like `-o <output>` syntax; `None`
    /// when the basic syntax assumptions do not look fulfilled.
    pub fn output(&self) -> (r: Option<String>)
        ensures
            match r {
                Some(p) => sp_output(self.directory@, self.command@) == Some(p@),
                None => sp_output(self.directory@, self.command@) is None,
            },
    {
        let words = match shell_split(self.command.as_str()) {
            Some(w) => w,
            None => {
                return None;
            },
        };
        if words.len() == 0 {
            return None;
        }
        let ghost ws = shlex_split_of(self.command@).unwrap();
        let ghost args = ws.subrange(1, ws.len() as int);
        proof {
            lemma_words_view_index(words@);
        }
        // Find the word after the first `-o`
        let mut i: usize = 1;
        let mut oidx: usize = 0;
        let mut found = false;
        loop
            invariant_except_break
                1 <= i <= words@.len(),
                words_view(words@) == ws,
                ws.len() == words@.len(),
                args == ws.subrange(1, ws.len() as int),
                !found,
                sp_after_o_flag(args, 0) == sp_after_o_flag(args, i - 1),
            ensures
                words_view(words@) == ws,
                ws.len() == words@.len(),
                args == ws.subrange(1, ws.len() as int),
                found ==> {
                    &&& sp_after_o_flag(args, 0) == Some(oidx - 1)
                    &&& 1 <= oidx < words@.len()
                },
                !found ==> sp_after_o_flag(args, 0) is None,
            decreases words@.len() - i,
        {
            if i >= words.len() {
                proof {
                    assert(args.len() == ws.len() - 1);
                    assert(i - 1 >= args.len());
                    assert(sp_after_o_flag(args, i - 1) is None);
                }
                break;
            }
            proof {
                lemma_words_view_index(words@);
                assert(args[i - 1] == ws[i as int]);
                assert(args[i - 1] == words@[i as int]@);
            }
            let oflag = String::from_str("-o");
            proof {
                reveal_strlit("-o");
            }
            if words[i] == oflag {
                proof {
                    reveal_strlit("-o");
                    assert(args[i - 1] == "-o"@);
                }
                if i + 1 < words.len() {
                    oidx = i + 1;
                    found = true;
                    proof {
                        assert(sp_after_o_flag(args, i - 1) == Some(i as int));
                    }
                    break;
                } else {
                    proof {
                        assert(sp_after_o_flag(args, i - 1) is None);
                    }
                    break;
                }
            }
            proof {
                reveal_strlit("-o");
                assert(args[i - 1] != "-o"@);
                assert(sp_after_o_flag(args, i - 1) == sp_after_o_flag(args, i as int));
            }
            i = i + 1;
        }
        if !found {
            return None;
        }
        let rel = crate::text::chars_of(words[oidx].as_str());
        let ghost relv = args[oidx - 1];
        proof {
            lemma_words_view_index(words@);
            assert(rel@ == relv);
        }
        // File name of the relative output
        let n = rel.len();
        let mut e: usize = n;
        while e > 0 && rel[e - 1] == '/'
            invariant
                e <= n == rel@.len(),
                sp_strip_slashes(rel@, n as int) == sp_strip_slashes(rel@, e as int),
            decreases e,
        {
            e = e - 1;
        }
        proof {
            assert(sp_strip_slashes(rel@, e as int) == e as int);
        }
        let mut b: usize = e;
        while b > 0 && rel[b - 1] != '/'
            invariant
                b <= e <= rel@.len(),
                sp_after_last_slash(rel@, e as int) == sp_after_last_slash(rel@, b as int),
            decreases b,
        {
            b = b - 1;
        }
        proof {
            assert(sp_after_last_slash(rel@, b as int) == b as int);
        }
        let mut seg: Vec<char> = Vec::new();
        let mut q: usize = b;
        while q < e
            invariant
                b <= q <= e <= rel@.len(),
                seg@ == rel@.subrange(b as int, q as int),
            decreases e - q,
        {
            seg.push(rel[q]);
            assert(seg@ =~= rel@.subrange(b as int, q + 1));
            q = q + 1;
        }
        assert(seg@ =~= rel@.subrange(b as int, e as int));
        proof {
            reveal_strlit("..");
            reveal_strlit(".");
        }
        if seg.len() == 0 {
            return None;
        }
        if seg.len() == 2 && seg[0] == '.' && seg[1] == '.' {
            proof {
                assert(seg@ =~= ".."@);
            }
            return None;
        }
        if seg.len() == 1 && seg[0] == '.' {
            proof {
                assert(seg@ =~= "."@);
            }
            return None;
        }
        proof {
            assert(seg@ != ".."@ && seg@ != "."@);
        }
        let mut parent: Vec<char> = Vec::new();
        let mut q2: usize = 0;
        while q2 < b
            invariant
                q2 <= b <= rel@.len(),
                parent@ == rel@.subrange(0, q2 as int),
            decreases b - q2,
        {
            parent.push(rel[q2]);
            assert(parent@ =~= rel@.subrange(0, q2 + 1));
            q2 = q2 + 1;
        }
        assert(parent@ =~= rel@.subrange(0, b as int));
        let dir = crate::text::chars_of(self.directory.as_str());
        let joined1 = path_join_chars(&dir, &parent);
        let joined2 = path_join_chars(&joined1, &seg);
        Some(crate::text::string_from_chars(joined2))
    }
}

/// Join two path fragments, as [`sp_path_join`] says
fn path_join_chars(base: &Vec<char>, rel: &Vec<char>) -> (r: Vec<char>)
    ensures
        r@ == sp_path_join(base@, rel@),
{
    if rel.len() > 0 && rel[0] == '/' {
        let mut out: Vec<char> = Vec::new();
        let mut i: usize = 0;
        while i < rel.len()
            invariant
                i <= rel@.len(),
                out@ == rel@.subrange(0, i as int),
            decreases rel@.len() - i,
        {
            out.push(rel[i]);
            assert(out@ =~= rel@.subrange(0, i + 1));
            i = i + 1;
        }
        assert(out@ =~= rel@);
        out
    } else if rel.len() == 0 {
        let mut out: Vec<char> = Vec::new();
        let mut i: usize = 0;
        while i < base.len()
            invariant
                i <= base@.len(),
                out@ == base@.subrange(0, i as int),
            decreases base@.len() - i,
        {
            out.push(base[i]);
            assert(out@ =~= base@.subrange(0, i + 1));
            i = i + 1;
        }
        assert(out@ =~= base@);
        out
    } else {
        let mut out: Vec<char> = Vec::new();
        let mut i: usize = 0;
        while i < base.len()
            invariant
                i <= base@.len(),
                out@ == base@.subrange(0, i as int),
            decreases base@.len() - i,
        {
            out.push(base[i]);
            assert(out@ =~= base@.subrange(0, i + 1));
            i = i + 1;
        }
        assert(out@ =~= base@);
        if !(base.len() > 0 && base[base.len() - 1] == '/') && base.len() > 0 {
            out.push('/');
        }
        let ghost mid = out@;
        let mut j: usize = 0;
        while j < rel.len()
            invariant
                j <= rel@.len(),
                out@ == mid + rel@.subrange(0, j as int),
            decreases rel@.len() - j,
        {
            out.push(rel[j]);
            assert(out@ =~= mid + rel@.subrange(0, j + 1));
            j = j + 1;
        }
        proof {
            assert(out@ =~= mid + rel@);
            if base@.len() == 0 {
                assert(out@ =~= rel@);
            } else if base@[base@.len() - 1] == '/' {
                assert(out@ =~= base@ + rel@);
            } else {
                assert(out@ =~= base@ + seq!['/'] + rel@);
            }
        }
        out
    }
}

/// Result of a build profile or output freshness query
#[derive(Debug, PartialEq, Eq, Clone, Copy, Structural)]
pub enum ProductFreshness {
    /// Build product has not been produced yet
    Nonexistent,
    /// Build product exists, but is provably outdated
    Outdated,
    /// Build product could be outdated; the payload is its age, when known
    MaybeOutdated(Option<u64>),
}

/// Failure to check output freshness
#[derive(Debug, PartialEq, Eq)]
pub enum OutputFreshnessError {
    /// The output location cannot be parsed from the compile command
    NotACompileCommand(String),
    /// An input or output file could not be probed
    IoError(String),
}

/// The freshness decision: nonexistent products are reported as such, a
/// product older than any reference is outdated, and otherwise only its age
/// can be reported.
pub open spec fn sp_freshness(
    product_mtime: Option<u64>,
    references: Seq<u64>,
    product_age: Option<u64>,
) -> ProductFreshness {
    match product_mtime {
        None => ProductFreshness::Nonexistent,
        Some(m) => if exists|j: int| 0 <= j < references.len() && references[j] > m {
            ProductFreshness::Outdated
        } else {
            ProductFreshness::MaybeOutdated(product_age)
        },
    }
}

/// Decide the freshness of one build product against reference times.
pub fn product_freshness(
    product_mtime: Option<u64>,
    references: &Vec<u64>,
    product_age: Option<u64>,
) -> (r: ProductFreshness)
    ensures
        r == sp_freshness(product_mtime, references@, product_age),
{
    let m = match product_mtime {
        None => {
            return ProductFreshness::Nonexistent;
        },
        Some(m) => m,
    };
    let mut i: usize = 0;
    while i < references.len()
        invariant
            product_mtime == Some(m),
            i <= references@.len(),
            forall|j: int| 0 <= j < i ==> references@[j] <= m,
        decreases references@.len() - i,
    {
        if references[i] > m {
            proof {
                assert(exists|j: int| 0 <= j < references@.len() && references@[j] > m) by {
                    assert(0 <= i < references@.len() && references@[i as int] > m);
                }
            }
            return ProductFreshness::Outdated;
        }
        i = i + 1;
    }
    proof {
        assert(forall|j: int| 0 <= j < references@.len() ==> references@[j] <= m);
        assert(!(exists|j: int| 0 <= j < references@.len() && references@[j] > m));
    }
    ProductFreshness::MaybeOutdated(product_age)
}

/// Full compilation database
#[derive(Debug, PartialEq, Eq)]
pub struct CompilationDatabase {
    /// The database entries, in file order
    pub db_entries: Vec<Entry>,
}

impl CompilationDatabase {
    /// Location of the compilation database relative to the build directory
    pub fn location() -> (r: String)
        ensures
            r@ == "compile_commands.json"@,
    {
        String::from_str("compile_commands.json")
    }

    /// List the database entries
    pub fn entries(&self) -> (r: &Vec<Entry>)
        ensures
            r == &self.db_entries,
    {
        &self.db_entries
    }

    /// Check whether a full-build profile seems up to date, given the
    /// database's own modification time and those of every input.
    pub fn profile_freshness(
        &self,
        db_mtime: u64,
        input_mtimes: &Vec<u64>,
        product_mtime: Option<u64>,
        product_age: Option<u64>,
    ) -> (r: ProductFreshness)
        ensures
            r == sp_freshness(product_mtime, seq![db_mtime] + input_mtimes@, product_age),
    {
        let mut refs: Vec<u64> = Vec::new();
        refs.push(db_mtime);
        let mut i: usize = 0;
        while i < input_mtimes.len()
            invariant
                i <= input_mtimes@.len(),
                refs@ == seq![db_mtime] + input_mtimes@.subrange(0, i as int),
            decreases input_mtimes@.len() - i,
        {
            refs.push(input_mtimes[i]);
            assert(refs@ =~= seq![db_mtime] + input_mtimes@.subrange(0, i + 1));
            i = i + 1;
        }
        assert(refs@ =~= seq![db_mtime] + input_mtimes@);
        product_freshness(product_mtime, &refs, product_age)
    }

    /// Check whether the output of one build command seems up to date.  The
    /// caller probes the file times; the entry's command must parse to an
    /// output location, else its command line is returned in the error.
    pub fn output_freshness(
        &self,
        entry: usize,
        db_mtime: u64,
        input_mtime: u64,
        product_mtime: Option<u64>,
        product_age: Option<u64>,
    ) -> (r: Result<ProductFreshness, OutputFreshnessError>)
        requires
            entry < self.db_entries@.len(),
        ensures
            match r {
                Ok(f) => {
                    &&& sp_output(
                        self.db_entries@[entry as int].directory@,
                        self.db_entries@[entry as int].command@,
                    ) is Some
                    &&& f == sp_freshness(
                        product_mtime,
                        seq![db_mtime, input_mtime],
                        product_age,
                    )
                },
                Err(e) => match e {
                    OutputFreshnessError::NotACompileCommand(c) => {
                        &&& sp_output(
                            self.db_entries@[entry as int].directory@,
                            self.db_entries@[entry as int].command@,
                        ) is None
                        &&& c@ == self.db_entries@[entry as int].command@
                    },
                    _ => false,
                },
            },
    {
        match self.db_entries[entry].output() {
            None => Err(OutputFreshnessError::NotACompileCommand(
                self.db_entries[entry].command.clone(),
            )),
            Some(_) => {
                let mut refs: Vec<u64> = Vec::new();
                refs.push(db_mtime);
                refs.push(input_mtime);
                assert(refs@ =~= seq![db_mtime, input_mtime]);
                Ok(product_freshness(product_mtime, &refs, product_age))
            },
        }
    }
}

} // verus!
