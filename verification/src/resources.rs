//! Benchmark resource paths and report-directory bookkeeping: the derived
//! payload file names, the existence checks that guard a run, and the
//! naming of report directories.
//!
//! Paths are plain `'/'`-separated strings, and the file system itself is
//! queried by the caller, which hands the answers in as booleans.

use vstd::prelude::*;
use vstd::string::StringExecFns;

use crate::error::PathError;
use crate::text::{all_digits, chars_to_string, digits_val, hex_digit, scan_digits, str_to_chars};

verus! {

/// The index right after the last `'/'`, or 0 when there is none: where
/// the path's final component starts.
pub open spec fn component_start(s: Seq<char>) -> int
    decreases s.len(),
{
    if s.len() == 0 {
        0
    } else if s.last() == '/' {
        s.len() as int
    } else {
        component_start(s.drop_last())
    }
}

proof fn lemma_component_start_from(s: Seq<char>, c: int)
    requires
        0 <= c <= s.len(),
        forall|k: int| c <= k < s.len() ==> s[k] != '/',
        c > 0 ==> s[c - 1] == '/',
    ensures
        component_start(s) == c,
    decreases s.len() - c,
{
    if c < s.len() {
        let t = s.drop_last();
        assert(forall|k: int| c <= k < t.len() ==> t[k] == s[k] && t[k] != '/');
        assert(c > 0 ==> t[c - 1] == s[c - 1]);
        lemma_component_start_from(t, c);
    }
}

/// The position of the last `'.'` of a file name, not counting a dot at
/// the very start, or -1: where the name's ending begins.
pub open spec fn last_dot(t: Seq<char>) -> int
    decreases t.len(),
{
    if t.len() <= 1 {
        -1
    } else if t.last() == '.' {
        t.len() - 1
    } else {
        last_dot(t.drop_last())
    }
}

proof fn lemma_last_dot_at(t: Seq<char>, d: int)
    requires
        1 <= d < t.len(),
        t[d] == '.',
        forall|k: int| d < k < t.len() ==> t[k] != '.',
    ensures
        last_dot(t) == d,
    decreases t.len(),
{
    if d < t.len() - 1 {
        let u = t.drop_last();
        assert(forall|k: int| d < k < u.len() ==> u[k] == t[k] && u[k] != '.');
        lemma_last_dot_at(u, d);
    }
}

proof fn lemma_last_dot_none(t: Seq<char>)
    requires
        forall|k: int| 1 <= k < t.len() ==> t[k] != '.',
    ensures
        last_dot(t) == -1,
    decreases t.len(),
{
    if t.len() > 1 {
        let u = t.drop_last();
        assert(forall|k: int| 1 <= k < u.len() ==> u[k] == t[k] && u[k] != '.');
        lemma_last_dot_none(u);
    }
}

/// The path's final component.
pub open spec fn file_component(s: Seq<char>) -> Seq<char> {
    s.subrange(component_start(s), s.len() as int)
}

/// The path with its final component's ending replaced by `ext` (or with
/// `.ext` appended when the component has no ending).
pub open spec fn with_extension(s: Seq<char>, ext: Seq<char>) -> Seq<char> {
    let t = file_component(s);
    let cut = if last_dot(t) < 0 {
        s.len() as int
    } else {
        component_start(s) + last_dot(t)
    };
    s.subrange(0, cut) + seq!['.'] + ext
}

/// The path's final component without its ending.
pub open spec fn file_stem(s: Seq<char>) -> Seq<char> {
    let t = file_component(s);
    if last_dot(t) < 0 {
        t
    } else {
        t.subrange(0, last_dot(t))
    }
}

/// Finds where the final component starts and where its ending begins:
/// `(component start, ending cut)` as absolute indices, the cut standing
/// at the length when there is no ending.
fn scan_path(chars: &Vec<char>) -> (r: (usize, usize))
    ensures
        r.0 as int <= r.1 as int <= chars@.len(),
        r.0 == component_start(chars@),
        r.1 == if last_dot(file_component(chars@)) < 0 {
            chars@.len() as int
        } else {
            component_start(chars@) + last_dot(file_component(chars@))
        },
{
    let n = chars.len();
    let mut c: usize = n;
    while c > 0 && chars[c - 1] != '/'
        invariant
            c <= n,
            n == chars@.len(),
            forall|k: int| c <= k < n ==> chars@[k] != '/',
        decreases c,
    {
        c = c - 1;
    }
    proof {
        lemma_component_start_from(chars@, c as int);
    }
    let ghost t = file_component(chars@);
    let mut d: usize = n;
    while d > 0 && d - 1 > c && chars[d - 1] != '.'
        invariant
            c <= d <= n,
            n == chars@.len(),
            forall|k: int| d <= k < n ==> chars@[k] != '.',
        decreases d,
    {
        d = d - 1;
    }
    if d > 0 && d - 1 > c {
        // a dot at `d - 1`, past the component's first character
        proof {
            assert(t[d - 1 - c] == chars@[d - 1]);
            assert(forall|k: int|
                d - c <= k < t.len() ==> t[k] == chars@[k + c] && t[k] != '.');
            lemma_last_dot_at(t, d - 1 - c);
        }
        (c, d - 1)
    } else {
        proof {
            assert(forall|k: int| 1 <= k < t.len() ==> t[k] == chars@[k + c]);
            assert(forall|k: int| 1 <= k < t.len() ==> t[k] != '.');
            lemma_last_dot_none(t);
        }
        (c, n)
    }
}

/// The path with its final component's ending replaced by `new_ending`.
pub fn with_different_file_ending(path: &str, new_ending: &str) -> (r: String)
    ensures
        r@ == with_extension(path@, new_ending@),
{
    let chars = str_to_chars(path);
    let (_, cut) = scan_path(&chars);
    let mut out: Vec<char> = Vec::new();
    let mut i: usize = 0;
    while i < cut
        invariant
            i <= cut <= chars@.len(),
            out@ =~= chars@.subrange(0, i as int),
        decreases cut - i,
    {
        out.push(chars[i]);
        i = i + 1;
        assert(out@ =~= chars@.subrange(0, i as int));
    }
    out.push('.');
    let ending = str_to_chars(new_ending);
    let mut j: usize = 0;
    while j < ending.len()
        invariant
            j <= ending@.len(),
            ending@ == new_ending@,
            out@ =~= chars@.subrange(0, cut as int) + seq!['.'] + new_ending@.subrange(
                0,
                j as int,
            ),
        decreases ending@.len() - j,
    {
        out.push(ending[j]);
        j = j + 1;
        assert(out@ =~= chars@.subrange(0, cut as int) + seq!['.'] + new_ending@.subrange(
            0,
            j as int,
        ));
    }
    proof {
        assert(new_ending@.subrange(0, new_ending@.len() as int) =~= new_ending@);
        assert(out@ =~= with_extension(path@, new_ending@));
    }
    chars_to_string(&out)
}

/// The vectors file of one dataset and the payload files derived from it.
#[derive(Debug)]
pub struct ResolvedPaths {
    pub vectors_file: String,
    pub document_payload_file: String,
    pub query_payload_file: String,
}

impl ResolvedPaths {
    /// Derives the document and query payload file paths from the vectors
    /// file's path.
    pub fn resolve(vectors_file: String) -> (r: ResolvedPaths)
        ensures
            r.vectors_file@ == vectors_file@,
            r.document_payload_file@ == with_extension(
                vectors_file@,
                "document.payload.bincode"@,
            ),
            r.query_payload_file@ == with_extension(vectors_file@, "query.payload.bincode"@),
    {
        let document_payload_file = with_different_file_ending(
            vectors_file.as_str(),
            "document.payload.bincode",
        );
        let query_payload_file = with_different_file_ending(
            vectors_file.as_str(),
            "query.payload.bincode",
        );
        ResolvedPaths { vectors_file, document_payload_file, query_payload_file }
    }

    /// The dataset's name: the vectors file's stem. A path without a file
    /// name is an error.
    pub fn dataset_name(&self) -> (r: Result<String, PathError>)
        ensures
            r is Ok <==> file_component(self.vectors_file@).len() > 0,
            r matches Err(e) ==> e == PathError::InvalidFileName,
            r matches Ok(name) ==> name@ == file_stem(self.vectors_file@),
    {
        let chars = str_to_chars(self.vectors_file.as_str());
        let (c, cut) = scan_path(&chars);
        if c == chars.len() {
            return Err(PathError::InvalidFileName);
        }
        let mut out: Vec<char> = Vec::new();
        let mut i: usize = c;
        while i < cut
            invariant
                c <= i <= cut <= chars@.len(),
                out@ =~= chars@.subrange(c as int, i as int),
            decreases cut - i,
        {
            out.push(chars[i]);
            i = i + 1;
            assert(out@ =~= chars@.subrange(c as int, i as int));
        }
        proof {
            assert(out@ =~= file_stem(self.vectors_file@));
        }
        Ok(chars_to_string(&out))
    }

    /// Checks that the vectors file and both payload files are all there,
    /// given whether each exists; run before a benchmark session.
    pub fn check_files_exists(
        &self,
        vectors_file_exists: bool,
        document_payload_file_exists: bool,
        query_payload_file_exists: bool,
    ) -> (r: Result<(), PathError>)
        ensures
            r is Ok <==> (vectors_file_exists && document_payload_file_exists
                && query_payload_file_exists),
            r == Err::<(), PathError>(PathError::MissingVectorsFile) <==> !vectors_file_exists,
            r == Err::<(), PathError>(PathError::MissingDocumentPayloadFile) <==> (
            vectors_file_exists && !document_payload_file_exists),
            r == Err::<(), PathError>(PathError::MissingQueryPayloadFile) <==> (
            vectors_file_exists && document_payload_file_exists && !query_payload_file_exists),
    {
        if !vectors_file_exists {
            return Err(PathError::MissingVectorsFile);
        }
        if !document_payload_file_exists {
            return Err(PathError::MissingDocumentPayloadFile);
        }
        if !query_payload_file_exists {
            return Err(PathError::MissingQueryPayloadFile);
        }
        Ok(())
    }

    /// Checks that only the vectors file is there yet, given whether each
    /// file exists; run before payload generation so existing payload
    /// files are never overwritten.
    pub fn check_only_vectors_file_exists(
        &self,
        vectors_file_exists: bool,
        document_payload_file_exists: bool,
        query_payload_file_exists: bool,
    ) -> (r: Result<(), PathError>)
        ensures
            r is Ok <==> (vectors_file_exists && !document_payload_file_exists
                && !query_payload_file_exists),
            r == Err::<(), PathError>(PathError::MissingVectorsFile) <==> !vectors_file_exists,
            r == Err::<(), PathError>(PathError::DocumentPayloadFileExists) <==> (
            vectors_file_exists && document_payload_file_exists),
            r == Err::<(), PathError>(PathError::QueryPayloadFileExists) <==> (
            vectors_file_exists && !document_payload_file_exists && query_payload_file_exists),
    {
        if !vectors_file_exists {
            return Err(PathError::MissingVectorsFile);
        }
        if document_payload_file_exists {
            return Err(PathError::DocumentPayloadFileExists);
        }
        if query_payload_file_exists {
            return Err(PathError::QueryPayloadFileExists);
        }
        Ok(())
    }
}

/// The lower-case hexadecimal rendering of a natural number, no leading
/// zeros.
pub open spec fn hex_str(n: nat) -> Seq<char>
    decreases n,
{
    if n < 16 {
        seq![hex_digit(n as int)]
    } else {
        hex_str(n / 16).push(hex_digit((n % 16) as int))
    }
}

/// The rendering padded with `'0'` to at least four digits.
pub open spec fn pad4(s: Seq<char>) -> Seq<char> {
    if s.len() >= 4 {
        s
    } else if s.len() == 3 {
        seq!['0'] + s
    } else if s.len() == 2 {
        seq!['0', '0'] + s
    } else {
        seq!['0', '0', '0'] + s
    }
}

fn hex_char_of(d: u8) -> (c: char)
    requires
        d < 16,
    ensures
        c == hex_digit(d as int),
{
    if d == 0 {
        '0'
    } else if d == 1 {
        '1'
    } else if d == 2 {
        '2'
    } else if d == 3 {
        '3'
    } else if d == 4 {
        '4'
    } else if d == 5 {
        '5'
    } else if d == 6 {
        '6'
    } else if d == 7 {
        '7'
    } else if d == 8 {
        '8'
    } else if d == 9 {
        '9'
    } else if d == 10 {
        'a'
    } else if d == 11 {
        'b'
    } else if d == 12 {
        'c'
    } else if d == 13 {
        'd'
    } else if d == 14 {
        'e'
    } else {
        'f'
    }
}

/// Appends the hexadecimal digits of `n`.
fn push_hex_chars(out: &mut Vec<char>, n: u64)
    ensures
        final(out)@ == old(out)@ + hex_str(n as nat),
    decreases n,
{
    if n < 16 {
        out.push(hex_char_of(n as u8));
        assert(final(out)@ =~= old(out)@ + hex_str(n as nat));
    } else {
        push_hex_chars(out, n / 16);
        out.push(hex_char_of((n % 16) as u8));
        assert(final(out)@ =~= old(out)@ + hex_str(n as nat));
    }
}

/// The deep view of a list of directory names.
pub open spec fn name_views(names: Seq<String>) -> Seq<Seq<char>> {
    names.map_values(|s: String| s@)
}

/// Every name is a non-empty decimal counter below the largest
/// representable value.
pub open spec fn names_ok(vs: Seq<Seq<char>>) -> bool {
    forall|i: int|
        0 <= i < vs.len() ==> (#[trigger] vs[i]).len() > 0 && all_digits(vs[i]) && digits_val(
            vs[i],
        ) < u64::MAX
}

/// The largest counter among the names, or -1 for none.
pub open spec fn max_counter(vs: Seq<Seq<char>>) -> int
    decreases vs.len(),
{
    if vs.len() == 0 {
        -1
    } else if digits_val(vs.last()) > max_counter(vs.drop_last()) {
        digits_val(vs.last())
    } else {
        max_counter(vs.drop_last())
    }
}

/// The name of the next report directory under a run's parent directory:
/// one past the largest decimal counter among the existing entries,
/// rendered as at least four lower-case hexadecimal digits. Any entry
/// that is not a decimal counter is an error.
pub fn next_dir_name(existing: &Vec<String>) -> (r: Result<String, PathError>)
    ensures
        r is Ok <==> names_ok(name_views(existing@)),
        r matches Err(e) ==> e == PathError::InvalidReportDirName,
        r matches Ok(name) ==> name@ == pad4(
            hex_str((max_counter(name_views(existing@)) + 1) as nat),
        ),
{
    let ghost vs = name_views(existing@);
    let mut max: u64 = 0;
    let mut have_any = false;
    let mut i: usize = 0;
    while i < existing.len()
        invariant
            i <= existing@.len(),
            vs == name_views(existing@),
            vs.len() == existing@.len(),
            forall|j: int| 0 <= j < vs.len() ==> vs[j] == existing@[j]@,
            forall|j: int|
                0 <= j < i ==> (#[trigger] vs[j]).len() > 0 && all_digits(vs[j]) && digits_val(
                    vs[j],
                ) < u64::MAX,
            max_counter(vs.subrange(0, i as int)) == if i == 0 {
                -1
            } else {
                max as int
            },
            i > 0 ==> max < u64::MAX,
            have_any <==> i > 0,
        decreases existing@.len() - i,
    {
        let chars = str_to_chars(existing[i].as_str());
        if chars.len() == 0 {
            proof {
                assert(vs[i as int].len() == 0);
            }
            return Err(PathError::InvalidReportDirName);
        }
        let value = match scan_digits(&chars, 0, chars.len()) {
            Some(v) => v,
            None => {
                proof {
                    assert(chars@.subrange(0, chars@.len() as int) =~= vs[i as int]);
                }
                return Err(PathError::InvalidReportDirName);
            },
        };
        if value == u64::MAX {
            proof {
                assert(chars@.subrange(0, chars@.len() as int) =~= vs[i as int]);
            }
            return Err(PathError::InvalidReportDirName);
        }
        proof {
            assert(chars@.subrange(0, chars@.len() as int) =~= vs[i as int]);
            assert(vs.subrange(0, i + 1).drop_last() =~= vs.subrange(0, i as int));
            assert(vs.subrange(0, i + 1).last() == vs[i as int]);
        }
        if !have_any || value > max {
            max = value;
        }
        have_any = true;
        proof {
            if i == 0 {
                assert(max_counter(vs.subrange(0, 1)) == digits_val(vs[0]));
            }
        }
        i = i + 1;
    }
    proof {
        assert(vs.subrange(0, vs.len() as int) =~= vs);
    }
    let counter = if existing.len() == 0 {
        0
    } else {
        max + 1
    };
    let mut digits: Vec<char> = Vec::new();
    push_hex_chars(&mut digits, counter);
    let mut padded: Vec<char> = Vec::new();
    if digits.len() < 4 {
        let mut z: usize = digits.len();
        while z < 4
            invariant
                1 <= digits@.len() <= z <= 4,
                padded@.len() == z - digits@.len(),
                forall|j: int| 0 <= j < padded@.len() ==> padded@[j] == '0',
            decreases 4 - z,
        {
            padded.push('0');
            z = z + 1;
        }
    }
    let mut j: usize = 0;
    while j < digits.len()
        invariant
            j <= digits@.len(),
            padded@.len() == (if digits@.len() < 4 {
                4 - digits@.len()
            } else {
                0int
            }) + j,
            padded@ =~= (if digits@.len() == 3 {
                seq!['0']
            } else if digits@.len() == 2 {
                seq!['0', '0']
            } else if digits@.len() == 1 {
                seq!['0', '0', '0']
            } else {
                Seq::<char>::empty()
            }) + digits@.subrange(0, j as int),
        decreases digits@.len() - j,
    {
        padded.push(digits[j]);
        j = j + 1;
        assert(padded@ =~= (if digits@.len() == 3 {
            seq!['0']
        } else if digits@.len() == 2 {
            seq!['0', '0']
        } else if digits@.len() == 1 {
            seq!['0', '0', '0']
        } else {
            Seq::<char>::empty()
        }) + digits@.subrange(0, j as int));
    }
    proof {
        assert(digits@.subrange(0, digits@.len() as int) =~= digits@);
        assert(padded@ =~= pad4(hex_str(counter as nat)));
    }
    Ok(chars_to_string(&padded))
}

/// Writes one trial's artifacts under one report directory; the caller
/// performs the writes and never overwrites an existing file.
#[derive(Debug)]
pub struct ResourceWriter {
    pub out_dir: String,
}

impl ResourceWriter {
    /// A writer rooted at the given directory.
    pub fn from_dir(out_dir: String) -> (r: ResourceWriter)
        ensures
            r.out_dir@ == out_dir@,
    {
        ResourceWriter { out_dir }
    }

    /// A writer for one scope under this writer's directory.
    pub fn sub_writer(&self, scope: &str) -> (r: ResourceWriter)
        ensures
            r.out_dir@ == self.out_dir@ + seq!['/'] + scope@,
    {
        let mut dir = self.out_dir.clone();
        crate::text::push_char(&mut dir, '/');
        dir.append(scope);
        assert(dir@ =~= self.out_dir@ + seq!['/'] + scope@);
        ResourceWriter { out_dir: dir }
    }
}

} // verus!
