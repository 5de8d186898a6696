//! Collision-safe upload naming. An uploaded part streams into a hidden
//! temporary file and is then published under its final name by an exclusive
//! rename: the name either did not exist and now carries the complete file,
//! or the publish is retried under a decorated name — `name (1).ext`,
//! `name (2).ext`, … — up to a bound, with one last unpredictable name after
//! it. The naming and retry decisions are verified here; the byte streaming
//! and the rename syscall live at the filesystem edge.

use vstd::prelude::*;

use crate::kv::{KVTable, MemoryTable};
use crate::state::{id_char, random_id};
use crate::strutil::{dec_str, format_u32};

verus! {

/// If there's more than this many files with the same name in the folder,
/// fail the upload: a bound on retries keeps a name-collision attack from
/// turning into unbounded work.
pub const MAX_RENAME_ATTEMPTS: u32 = 100;

/// What sanitizing a declared filename yields. Named for
/// `sanitize_filename::sanitize`; deterministic in the name.
pub uninterp spec fn sanitized_of(s: Seq<char>) -> Seq<char>;

/// Relies on `sanitize_filename::sanitize_with_options` with fixed POSIX
/// options (`windows: false, truncate: true`, empty replacement): path
/// separators and control characters are removed — the result never holds a
/// `/` — and a name of only dots becomes empty, so the result is never `.`
/// or `..`.
#[verifier::external_body]
pub fn sanitize_filename_str(name: &str) -> (r: String)
    ensures
        r@ == sanitized_of(name@),
        forall|i: int| 0 <= i < r@.len() ==> r@[i] != '/',
        r@ != seq!['.'],
        r@ != seq!['.', '.'],
{
    sanitize_filename::sanitize_with_options(
        name,
        sanitize_filename::Options { windows: false, truncate: true, replacement: "" },
    )
}

/// The stem and extension of a file name, split at its last dot; a dot at
/// the very front starts no extension, so a dotfile keeps its whole name as
/// the stem. The extension includes the dot.
pub open spec fn split_name_spec(name: Seq<char>) -> (Seq<char>, Seq<char>)
    decreases name.len(),
{
    if name.len() <= 1 {
        (name, Seq::<char>::empty())
    } else if name.last() == '.' {
        (name.drop_last(), seq!['.'])
    } else {
        let (stem, ext) = split_name_spec(name.drop_last());
        if ext.len() > 0 {
            (stem, ext.push(name.last()))
        } else {
            (name, Seq::<char>::empty())
        }
    }
}

proof fn lemma_split_name_at(name: Seq<char>, i: int)
    requires
        0 < i < name.len(),
        name[i] == '.',
        forall|j: int| i < j < name.len() ==> name[j] != '.',
    ensures
        split_name_spec(name) == (name.subrange(0, i), name.subrange(i, name.len() as int)),
    decreases name.len(),
{
    if i == name.len() - 1 {
        assert(name.subrange(0, i) =~= name.drop_last());
        assert(name.subrange(i, name.len() as int) =~= seq!['.']);
    } else {
        let dl = name.drop_last();
        assert(forall|j: int| i < j < dl.len() ==> dl[j] != '.');
        lemma_split_name_at(dl, i);
        assert(dl.subrange(0, i) =~= name.subrange(0, i));
        assert(split_name_spec(name).1 =~= name.subrange(i, name.len() as int)) by {
            assert(dl.subrange(i, dl.len() as int).push(name.last()) =~= name.subrange(
                i,
                name.len() as int,
            ));
        }
    }
}

proof fn lemma_split_name_none(name: Seq<char>)
    requires
        forall|j: int| 1 <= j < name.len() ==> name[j] != '.',
    ensures
        split_name_spec(name) == (name, Seq::<char>::empty()),
    decreases name.len(),
{
    if name.len() > 1 {
        let dl = name.drop_last();
        assert(forall|j: int| 1 <= j < dl.len() ==> dl[j] != '.');
        lemma_split_name_none(dl);
    }
}

/// Splits a file name into its stem and its extension (with the dot).
pub fn split_name(name: &str) -> (r: (String, String))
    ensures
        (r.0@, r.1@) == split_name_spec(name@),
{
    let len = name.unicode_len();
    let mut i: usize = len;
    while i > 1
        invariant
            i <= len,
            len == name@.len(),
            forall|j: int| i <= j < len ==> name@[j] != '.',
        decreases i,
    {
        if name.get_char(i - 1) == '.' {
            proof {
                lemma_split_name_at(name@, i - 1);
            }
            let stem = name.substring_char(0, i - 1).to_owned();
            let ext = name.substring_char(i - 1, len).to_owned();
            return (stem, ext);
        }
        i -= 1;
    }
    proof {
        lemma_split_name_none(name@);
    }
    (name.to_owned(), String::new())
}

/// The decorated form of a name: a counter inserted between the stem and the
/// extension, `stem (k).ext`.
pub open spec fn decorated_name(stem: Seq<char>, k: int, ext: Seq<char>) -> Seq<char> {
    stem + seq![' ', '('] + dec_str(k) + seq![')'] + ext
}

/// Renders the decorated form of a name.
pub fn make_decorated(stem: &str, k: u32, ext: &str) -> (r: String)
    ensures
        r@ == decorated_name(stem@, k as int, ext@),
{
    let mut out = String::new();
    out.append(stem);
    out.push(' ');
    out.push('(');
    out.append(format_u32(k).as_str());
    out.push(')');
    out.append(ext);
    proof {
        assert(out@ =~= decorated_name(stem@, k as int, ext@));
    }
    out
}

/// The hidden temporary name an upload streams into: derived from the final
/// name plus a nonce, so simultaneous uploads of the same name never collide
/// on their temporary files.
pub open spec fn part_name_spec(filename: Seq<char>, nonce: Seq<char>) -> Seq<char> {
    seq!['.'] + filename + seq!['.'] + nonce + ".part"@
}

/// Builds the temporary file name for an upload from its final name and a
/// nonce.
pub fn part_file_name(filename: &str, nonce: &str) -> (r: String)
    ensures
        r@ == part_name_spec(filename@, nonce@),
{
    let mut out = String::new();
    out.push('.');
    out.append(filename);
    out.push('.');
    out.append(nonce);
    out.append(".part");
    proof {
        assert(out@ =~= part_name_spec(filename@, nonce@));
    }
    out
}

/// Builds a fresh temporary file name with a random nonce.
pub fn fresh_part_file_name(filename: &str) -> (r: String)
    ensures
        exists|n: Seq<char>|
            n.len() == 8 && #[trigger] part_name_spec(filename@, n) == r@,
{
    let nonce = random_id(8);
    let r = part_file_name(filename, nonce.as_str());
    proof {
        assert(part_name_spec(filename@, nonce@) == r@);
    }
    r
}

/// Law: two uploads of the same declared name that pick different nonces
/// stream into different temporary files.
pub proof fn lemma_part_names_distinct(filename: Seq<char>, n1: Seq<char>, n2: Seq<char>)
    requires
        n1.len() == n2.len(),
        n1 != n2,
    ensures
        part_name_spec(filename, n1) != part_name_spec(filename, n2),
{
    let a = part_name_spec(filename, n1);
    let b = part_name_spec(filename, n2);
    if a == b {
        let start = filename.len() as int + 2;
        assert(a.subrange(start, start + n1.len() as int) =~= n1);
        assert(b.subrange(start, start + n2.len() as int) =~= n2);
    }
}

/// Law: distinct retry counters decorate one name into distinct names, so
/// the retries of one upload never race each other on a candidate.
pub proof fn lemma_decorated_names_distinct(
    stem: Seq<char>,
    k1: int,
    k2: int,
    ext: Seq<char>,
)
    requires
        0 <= k1,
        0 <= k2,
        k1 != k2,
    ensures
        decorated_name(stem, k1, ext) != decorated_name(stem, k2, ext),
{
    let a = decorated_name(stem, k1, ext);
    let b = decorated_name(stem, k2, ext);
    let d1 = dec_str(k1);
    let d2 = dec_str(k2);
    if a == b {
        assert(a.len() == stem.len() + 2 + d1.len() + 1 + ext.len());
        assert(b.len() == stem.len() + 2 + d2.len() + 1 + ext.len());
        let start = stem.len() as int + 2;
        assert(a.subrange(start, start + d1.len() as int) =~= d1);
        assert(b.subrange(start, start + d2.len() as int) =~= d2);
        crate::strutil::lemma_dec_str_injective(k1, k2);
    }
}

/// The deterministic retry schedule of an upload: the desired name first,
/// then the decorated names in counter order.
pub open spec fn scheduled_candidate(desired: Seq<char>, k: int) -> Seq<char>
    recommends
        0 <= k < MAX_RENAME_ATTEMPTS,
{
    if k == 0 {
        desired
    } else {
        decorated_name(split_name_spec(desired).0, k, split_name_spec(desired).1)
    }
}

/// Chooses the name an upload part wants: the declared name, sanitized — or
/// a fresh random identifier when none was declared or nothing of the name
/// survived sanitizing.
pub struct UploadNamer {
    /// The name the part will first try to publish under.
    pub desired: String,
    /// The stem of the desired name, in front of any decoration.
    pub stem: String,
    /// The extension of the desired name, after any decoration.
    pub ext: String,
}

impl UploadNamer {
    /// The stem/extension split of the desired name, which decorated
    /// candidates are built from.
    pub open spec fn wf(&self) -> bool {
        (self.stem@, self.ext@) == split_name_spec(self.desired@)
    }

    /// Sets up naming for one part: a declared name is sanitized; an absent
    /// or fully-sanitized-away name is replaced by a random identifier.
    pub fn new(declared: Option<&str>) -> (r: UploadNamer)
        ensures
            r.wf(),
            match declared {
                Some(d) => (sanitized_of(d@).len() > 0 ==> r.desired@ == sanitized_of(d@)) && (
                sanitized_of(d@).len() == 0 ==> r.desired@.len() == crate::state::ID_LENGTH && (
                forall|i: int| 0 <= i < r.desired@.len() ==> id_char(#[trigger] r.desired@[i]))),
                None => r.desired@.len() == crate::state::ID_LENGTH && (forall|i: int|
                    0 <= i < r.desired@.len() ==> id_char(#[trigger] r.desired@[i])),
            },
            r.desired@.len() > 0,
            (forall|i: int| 0 <= i < r.desired@.len() ==> r.desired@[i] != '/'),
            r.desired@ != seq!['.'],
            r.desired@ != seq!['.', '.'],
    {
        let desired = match declared {
            Some(d) => {
                let s = sanitize_filename_str(d);
                if s.as_str().is_empty() {
                    random_filename()
                } else {
                    s
                }
            },
            None => random_filename(),
        };
        let (stem, ext) = split_name(desired.as_str());
        UploadNamer { desired, stem, ext }
    }

    /// The name to try on attempt `k`: the desired name first, then the
    /// decorated names in order, then — once, right before giving up — a
    /// name with an unpredictable suffix; after that, nothing.
    pub fn candidate(&self, k: u32) -> (r: Option<String>)
        requires
            self.wf(),
        ensures
            k == 0 ==> (r matches Some(name) && name@ == self.desired@),
            0 < k < MAX_RENAME_ATTEMPTS ==> (r matches Some(name) && name@ == decorated_name(
                split_name_spec(self.desired@).0,
                k as int,
                split_name_spec(self.desired@).1,
            )),
            k == MAX_RENAME_ATTEMPTS ==> (r matches Some(name) && exists|n: Seq<char>|
                n.len() == crate::state::ID_LENGTH && name@ == self.desired@ + seq![' ', '(']
                    + n + seq![')'] + self.ext@),
            k > MAX_RENAME_ATTEMPTS ==> r is None,
    {
        if k == 0 {
            Some(self.desired.clone())
        } else if k < MAX_RENAME_ATTEMPTS {
            Some(make_decorated(self.stem.as_str(), k, self.ext.as_str()))
        } else if k == MAX_RENAME_ATTEMPTS {
            // the counter is exhausted: one final try with a random suffix,
            // which for practical purposes cannot collide
            let nonce = random_id(crate::state::ID_LENGTH);
            let mut out = String::new();
            out.append(self.desired.as_str());
            out.push(' ');
            out.push('(');
            out.append(nonce.as_str());
            out.push(')');
            out.append(self.ext.as_str());
            proof {
                assert(out@ =~= self.desired@ + seq![' ', '('] + nonce@ + seq![')'] + self.ext@);
            }
            Some(out)
        } else {
            None
        }
    }
}

fn random_filename() -> (r: String)
    ensures
        r@.len() == crate::state::ID_LENGTH,
        forall|i: int| 0 <= i < r@.len() ==> id_char(#[trigger] r@[i]),
        (forall|i: int| 0 <= i < r@.len() ==> r@[i] != '/'),
        r@ != seq!['.'],
        r@ != seq!['.', '.'],
{
    let r = random_id(crate::state::ID_LENGTH);
    proof {
        assert(forall|i: int| 0 <= i < r@.len() ==> r@[i] != '/');
        assert(r@[0] != '.');
    }
    r
}

/// Publishes a name into a directory model exclusively: succeeds if and only
/// if the name was unoccupied, and then occupies it. This is the discipline
/// the exclusive rename enforces on the real directory.
pub fn publish_exclusive(dir: &mut MemoryTable<()>, name: &str) -> (r: bool)
    requires
        old(dir).wf(),
    ensures
        final(dir).wf(),
        r == !old(dir)@.contains_key(name@),
        final(dir)@ == if r {
            old(dir)@.insert(name@, ())
        } else {
            old(dir)@
        },
{
    if dir.get(name).is_some() {
        proof {
            assert(dir@ =~= old(dir)@);
        }
        false
    } else {
        dir.put(name, ());
        true
    }
}

/// Resolves the final name of one upload part against a directory model:
/// tries the schedule in order — the desired name, then each decorated name,
/// then once a random suffix — publishing exclusively. The name returned is
/// the first free candidate of the schedule: it was free, every earlier
/// candidate was occupied, and nothing else changed; `None` comes back only
/// when the whole deterministic schedule (and the final random try) was
/// occupied.
pub fn resolve_upload_name(dir: &mut MemoryTable<()>, namer: &UploadNamer) -> (r: Option<String>)
    requires
        old(dir).wf(),
        namer.wf(),
    ensures
        final(dir).wf(),
        match r {
            Some(name) => !old(dir)@.contains_key(name@) && final(dir)@ == old(dir)@.insert(
                name@,
                (),
            ) && (!old(dir)@.contains_key(namer.desired@) ==> name@ == namer.desired@) && (old(
                dir,
            )@.contains_key(namer.desired@) ==> name@ != namer.desired@) && (exists|k: int|
                0 <= k <= MAX_RENAME_ATTEMPTS && (k < MAX_RENAME_ATTEMPTS ==> name@
                    == scheduled_candidate(namer.desired@, k)) && (k == MAX_RENAME_ATTEMPTS
                    ==> (exists|n: Seq<char>|
                    n.len() == crate::state::ID_LENGTH && name@ == namer.desired@ + seq![' ', '(']
                        + n + seq![')'] + split_name_spec(namer.desired@).1)) && (forall|j: int|
                    0 <= j < k ==> old(dir)@.contains_key(
                        #[trigger] scheduled_candidate(namer.desired@, j),
                    ))),
            None => final(dir)@ == old(dir)@ && forall|j: int|
                0 <= j < MAX_RENAME_ATTEMPTS ==> old(dir)@.contains_key(
                    #[trigger] scheduled_candidate(namer.desired@, j),
                ),
        },
{
    let mut k: u32 = 0;
    while k <= MAX_RENAME_ATTEMPTS
        invariant
            old(dir).wf(),
            dir.wf(),
            namer.wf(),
            dir@ == old(dir)@,
            k <= MAX_RENAME_ATTEMPTS + 1,
            forall|j: int|
                0 <= j < k && j < MAX_RENAME_ATTEMPTS ==> old(dir)@.contains_key(
                    #[trigger] scheduled_candidate(namer.desired@, j),
                ),
        decreases MAX_RENAME_ATTEMPTS - k + 1,
    {
        let candidate = match namer.candidate(k) {
            Some(c) => c,
            None => vstd::pervasive::unreached(),
        };
        proof {
            if k < MAX_RENAME_ATTEMPTS {
                assert(candidate@ == scheduled_candidate(namer.desired@, k as int));
            }
        }
        if publish_exclusive(dir, candidate.as_str()) {
            proof {
                let d = namer.desired@;
                let ghost kk = k as int;
                if k > 0 {
                    assert(old(dir)@.contains_key(scheduled_candidate(d, 0)));
                }
                if k == MAX_RENAME_ATTEMPTS {
                    let n0 = choose|n: Seq<char>|
                        n.len() == crate::state::ID_LENGTH && candidate@ == d + seq![' ', '(']
                            + n + seq![')'] + namer.ext@;
                    assert(namer.ext@ == split_name_spec(d).1);
                    assert(n0.len() == crate::state::ID_LENGTH && candidate@ == d + seq![
                        ' ',
                        '(',
                    ] + n0 + seq![')'] + split_name_spec(d).1);
                }
                assert(scheduled_candidate(d, 0) == d);
                assert(scheduled_candidate(d, kk) == scheduled_candidate(d, kk));
                assert(0 <= kk <= MAX_RENAME_ATTEMPTS && (kk < MAX_RENAME_ATTEMPTS
                    ==> candidate@ == scheduled_candidate(d, kk)) && (kk == MAX_RENAME_ATTEMPTS
                    ==> (exists|n: Seq<char>|
                    n.len() == crate::state::ID_LENGTH && candidate@ == d + seq![' ', '('] + n
                        + seq![')'] + split_name_spec(d).1)) && (forall|j: int|
                    0 <= j < kk ==> old(dir)@.contains_key(
                        #[trigger] scheduled_candidate(d, j),
                    )));
                assert(exists|kx: int|
                    0 <= kx <= MAX_RENAME_ATTEMPTS && (kx < MAX_RENAME_ATTEMPTS ==> candidate@
                        == scheduled_candidate(d, kx)) && (kx == MAX_RENAME_ATTEMPTS ==> (exists|
                        n: Seq<char>,
                    |
                        n.len() == crate::state::ID_LENGTH && candidate@ == d + seq![' ', '(']
                            + n + seq![')'] + split_name_spec(d).1)) && (forall|j: int|
                        0 <= j < kx ==> old(dir)@.contains_key(
                            #[trigger] scheduled_candidate(d, j),
                        )));
            }
            return Some(candidate);
        }
        k += 1;
    }
    None
}

/// Law: when two uploads declare the same name and both publish through the
/// exclusive-rename discipline, exactly one of them ends up under the
/// undecorated name and the other under a different name — the second
/// publish can never overwrite or repeat the first.
pub proof fn lemma_concurrent_uploads_distinct(
    dir0: Map<Seq<char>, ()>,
    name1: Seq<char>,
    dir1: Map<Seq<char>, ()>,
    name2: Seq<char>,
    desired: Seq<char>,
)
    requires
        !dir0.contains_key(name1),
        dir1 == dir0.insert(name1, ()),
        !dir0.contains_key(desired) ==> name1 == desired,
        !dir1.contains_key(name2),
        !dir1.contains_key(desired) ==> name2 == desired,
    ensures
        name1 != name2,
        !dir0.contains_key(desired) ==> name1 == desired && name2 != desired,
{
}

} // verus!
