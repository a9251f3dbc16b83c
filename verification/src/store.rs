//! The paste store: a model of the flat store directory and the engine's
//! create / read / sweep operations over it.
//!
//! The store holds one entry per directory object: its file name, its bytes
//! (compressed for pastes the engine wrote), its creation time, and whether
//! it is a regular file. The directory listing is the only index; the view of
//! a store is a map from file name to file model. A front end mirrors these
//! operations onto a real directory: the contracts here are what that
//! directory must look like after each operation.

use vstd::prelude::*;
use vstd::string::StrSliceExecFns;
use vstd::string::StringExecFns;

use crate::codec::compress_of;
use crate::codec::concat_vecs;
use crate::codec::decode_paste;
use crate::codec::decompressed_of;
use crate::codec::encode_paste;
use crate::codec::lossy_of;
use crate::codec::utf8_lossy;
use crate::error::Error;
use crate::ident::IdGen;
use crate::text::lemma_lower_chars_of_valid_id;
use crate::text::lower_ascii_str;
use crate::text::lower_chars;
use crate::text::is_lower_alpha;
use crate::text::valid_id;

verus! {

/// How many fresh candidates `create` draws before giving up: with realistic
/// word lists a collision streak this long only happens when the store is
/// effectively full, which is reported as an I/O fault rather than looping
/// forever.
pub const MAX_CREATE_ATTEMPTS: usize = 4096;

/// One object in the store directory.
pub struct Entry {
    /// The file name, e.g. `quietriver.zst`.
    pub name: String,
    /// The stored bytes (the compressed stream, for pastes).
    pub data: Vec<u8>,
    /// Creation time, in seconds.
    pub created_at: u64,
    /// Whether the object is a regular file.
    pub is_file: bool,
}

/// The mathematical model of one stored object.
pub struct FileModel {
    pub data: Seq<u8>,
    pub created_at: u64,
    pub is_file: bool,
}

pub open spec fn entry_model(e: Entry) -> FileModel {
    FileModel { data: e.data@, created_at: e.created_at, is_file: e.is_file }
}

/// The map from file name to file model described by a listing.
pub open spec fn entries_model(s: Seq<Entry>) -> Map<Seq<char>, FileModel>
    decreases s.len(),
{
    if s.len() == 0 {
        Map::empty()
    } else {
        entries_model(s.drop_last()).insert(s.last().name@, entry_model(s.last()))
    }
}

/// Pairwise-distinct file names.
pub open spec fn unique_names(s: Seq<Entry>) -> bool {
    forall|i: int, j: int|
        0 <= i < j < s.len() ==> (#[trigger] s[i]).name@ != (#[trigger] s[j]).name@
}

/// Every file name is ASCII: the store directory is single-purpose and holds
/// names the engine (or tooling sticking to the same convention) chose.
pub open spec fn ascii_names(s: Seq<Entry>) -> bool {
    forall|i: int|
        0 <= i < s.len() ==> vstd::utf8::is_ascii_chars((#[trigger] s[i]).name@)
}

/// The `.zst` extension every paste file carries.
pub open spec fn zst_ext() -> Seq<char> {
    seq!['.', 'z', 's', 't']
}

/// The file name a (possibly mixed-case) identifier is stored under:
/// the identifier folded to lowercase, then the compression extension.
pub open spec fn storage_name_spec(id: Seq<char>) -> Seq<char> {
    lower_chars(id) + zst_ext()
}

/// The file name for an ASCII identifier.
pub fn storage_name(id: &str) -> (r: String)
    requires
        id.is_ascii(),
    ensures
        r@ == storage_name_spec(id@),
        vstd::utf8::is_ascii_chars(r@),
{
    let mut s = lower_ascii_str(id);
    s.append(".zst");
    proof {
        reveal_strlit(".zst");
        assert(".zst"@ =~= zst_ext());
        assert(s@ =~= storage_name_spec(id@));
        assert forall|i: int| 0 <= i < s@.len() implies '\0' <= #[trigger] s@[i] <= '\u{7f}' by {
            if i < id@.len() {
                assert(s@[i] == crate::text::lower_char(id@[i]));
                assert('\0' <= id@[i] <= '\u{7f}');
            } else {
                assert(s@[i] == zst_ext()[i - id@.len()]);
            }
        }
    }
    s
}

/// What a retrieval of `id` must yield against directory `m`: the decoded
/// content when the derived path names a regular file holding a well-formed
/// stream, a not-found signal when it names nothing (or not a regular file),
/// and an I/O fault when the stream does not decode.
pub enum ReadOutcome {
    Content(Seq<u8>),
    NotFound,
    Corrupt,
}

pub open spec fn read_model(m: Map<Seq<char>, FileModel>, id: Seq<char>) -> ReadOutcome {
    let name = storage_name_spec(id);
    if m.dom().contains(name) && m[name].is_file {
        match decompressed_of(m[name].data) {
            Some(b) => ReadOutcome::Content(b),
            None => ReadOutcome::Corrupt,
        }
    } else {
        ReadOutcome::NotFound
    }
}

/// An upload stream: the chunks a client delivered, and whether the stream
/// broke off with an error instead of a clean end-of-data.
pub struct IngestStream {
    pub chunks: Vec<Vec<u8>>,
    pub interrupted: bool,
}

impl IngestStream {
    /// The full payload carried by the stream.
    pub open spec fn content(&self) -> Seq<u8> {
        concat_vecs(self.chunks@)
    }

    /// A stream that delivers `chunks` completely.
    pub fn complete(chunks: Vec<Vec<u8>>) -> (r: IngestStream)
        ensures
            r.chunks == chunks,
            !r.interrupted,
    {
        IngestStream { chunks, interrupted: false }
    }

    /// A stream that errors out after delivering `chunks`.
    pub fn broken(chunks: Vec<Vec<u8>>) -> (r: IngestStream)
        ensures
            r.chunks == chunks,
            r.interrupted,
    {
        IngestStream { chunks, interrupted: true }
    }
}

/// A name occurs in the model exactly when some listed entry bears it.
pub proof fn lemma_model_contains(s: Seq<Entry>, name: Seq<char>)
    ensures
        entries_model(s).dom().contains(name) <==> exists|i: int|
            0 <= i < s.len() && (#[trigger] s[i]).name@ == name,
    decreases s.len(),
{
    if s.len() > 0 {
        lemma_model_contains(s.drop_last(), name);
        if entries_model(s).dom().contains(name) {
            if s.last().name@ == name {
                assert(s[s.len() - 1].name@ == name);
            } else {
                let i = choose|i: int|
                    0 <= i < s.drop_last().len() && (#[trigger] s.drop_last()[i]).name@ == name;
                assert(s[i].name@ == name);
            }
        }
        if exists|i: int| 0 <= i < s.len() && (#[trigger] s[i]).name@ == name {
            let i = choose|i: int| 0 <= i < s.len() && (#[trigger] s[i]).name@ == name;
            if i == s.len() - 1 {
                assert(entries_model(s).dom().contains(name));
            } else {
                assert(s.drop_last()[i].name@ == name);
            }
        }
    }
}

/// With distinct names, each listed entry is what the model maps its name to.
pub proof fn lemma_model_index(s: Seq<Entry>, i: int)
    requires
        unique_names(s),
        0 <= i < s.len(),
    ensures
        entries_model(s).dom().contains(s[i].name@),
        entries_model(s)[s[i].name@] == entry_model(s[i]),
    decreases s.len(),
{
    if i == s.len() - 1 {
        assert(entries_model(s) == entries_model(s.drop_last()).insert(
            s.last().name@,
            entry_model(s.last()),
        ));
    } else {
        assert(unique_names(s.drop_last()));
        lemma_model_index(s.drop_last(), i);
        assert(s.drop_last()[i] == s[i]);
        assert(s[i].name@ != s.last().name@);
    }
}

/// Appending an entry inserts it into the model.
pub proof fn lemma_model_push(s: Seq<Entry>, e: Entry)
    ensures
        entries_model(s.push(e)) == entries_model(s).insert(e.name@, entry_model(e)),
{
    assert(s.push(e).drop_last() =~= s);
    assert(s.push(e).last() == e);
}

/// The model is finite and, under distinct names, has one key per entry.
pub proof fn lemma_model_len(s: Seq<Entry>)
    requires
        unique_names(s),
    ensures
        entries_model(s).dom().finite(),
        entries_model(s).len() == s.len(),
    decreases s.len(),
{
    if s.len() == 0 {
    } else {
        assert(unique_names(s.drop_last()));
        lemma_model_len(s.drop_last());
        lemma_model_contains(s.drop_last(), s.last().name@);
        assert(forall|i: int|
            0 <= i < s.drop_last().len() ==> (#[trigger] s.drop_last()[i]).name@
                != s.last().name@);
    }
}

/// Whether a stored object is due for deletion: retention is enabled, the
/// object is a regular file, and its age at `now` is at least `ttl_days`
/// days. With `ttl_days == 0` nothing ever expires.
pub open spec fn expired(f: FileModel, now: u64, ttl_days: u32) -> bool {
    &&& ttl_days != 0
    &&& f.is_file
    &&& f.created_at as int + (ttl_days as int) * 86400 <= now as int
}

/// What one sweep pass does to the directory: exactly the expired regular
/// files are gone, everything else is untouched.
pub open spec fn sweep_rel(
    pre: Map<Seq<char>, FileModel>,
    post: Map<Seq<char>, FileModel>,
    now: u64,
    ttl_days: u32,
) -> bool {
    &&& forall|n: Seq<char>|
        #![auto]
        post.dom().contains(n) <==> (pre.dom().contains(n) && !expired(pre[n], now, ttl_days))
    &&& forall|n: Seq<char>| #[trigger] post.dom().contains(n) ==> post[n] == pre[n]
}

/// Every name the generator could produce is still free in directory `m`:
/// the plain case in which a create owes success (a fresh store being the
/// simplest instance).
pub open spec fn all_candidates_free(gen: IdGen, m: Map<Seq<char>, FileModel>) -> bool {
    forall|id: Seq<char>|
        gen.can_generate(id) ==> !m.dom().contains(#[trigger] storage_name_spec(id))
}

/// The paste store: the directory contents, one entry per object.
pub struct Store {
    entries: Vec<Entry>,
}

impl View for Store {
    type V = Map<Seq<char>, FileModel>;

    closed spec fn view(&self) -> Map<Seq<char>, FileModel> {
        entries_model(self.entries@)
    }
}

impl Store {
    /// Well-formed: names are distinct (one directory entry per name) and
    /// ASCII (the store directory is single-purpose).
    pub closed spec fn wf(&self) -> bool {
        &&& unique_names(self.entries@)
        &&& ascii_names(self.entries@)
    }

    /// An empty store directory.
    pub fn new() -> (r: Store)
        ensures
            r.wf(),
            r@ == Map::<Seq<char>, FileModel>::empty(),
    {
        Store { entries: Vec::new() }
    }

    /// How many objects the store holds.
    pub fn count(&self) -> (r: usize)
        requires
            self.wf(),
        ensures
            r == self@.len(),
    {
        proof {
            lemma_model_len(self.entries@);
        }
        self.entries.len()
    }

    /// Find the entry bearing `name`, if any.
    fn find(&self, name: &String) -> (r: Option<usize>)
        requires
            self.wf(),
        ensures
            r is Some ==> r->0 < self.entries@.len() && self.entries@[r->0 as int].name@ == name@,
            r is None ==> !self@.dom().contains(name@),
    {
        let n = self.entries.len();
        let mut i: usize = 0;
        while i < n
            invariant
                n == self.entries@.len(),
                i <= n,
                forall|k: int| 0 <= k < i ==> (#[trigger] self.entries@[k]).name@ != name@,
            decreases n - i,
        {
            if self.entries[i].name == *name {
                return Some(i);
            }
            i += 1;
        }
        proof {
            lemma_model_contains(self.entries@, name@);
        }
        None
    }

    /// Place an object in the directory as an outside actor would (tests and
    /// tooling): succeeds when the name is ASCII and not yet taken.
    pub fn place_entry(&mut self, name: String, data: Vec<u8>, created_at: u64, is_file: bool) -> (r:
        bool)
        requires
            old(self).wf(),
        ensures
            final(self).wf(),
            r == (vstd::utf8::is_ascii_chars(name@) && !old(self)@.dom().contains(name@)),
            r ==> final(self)@ == old(self)@.insert(
                name@,
                FileModel { data: data@, created_at, is_file },
            ),
            !r ==> final(self)@ == old(self)@,
    {
        if !name.is_ascii() {
            return false;
        }
        match self.find(&name) {
            Some(_) => {
                proof {
                    lemma_model_index(self.entries@, choose|i: int|
                        0 <= i < self.entries@.len() && (#[trigger] self.entries@[i]).name@
                            == name@);
                    lemma_model_contains(self.entries@, name@);
                }
                false
            },
            None => {
                proof {
                    lemma_model_contains(self.entries@, name@);
                    lemma_model_push(
                        self.entries@,
                        Entry { name, data, created_at, is_file },
                    );
                }
                let e = Entry { name, data, created_at, is_file };
                let ghost pre = self.entries@;
                self.entries.push(e);
                proof {
                    assert(forall|k: int|
                        0 <= k < pre.len() ==> (#[trigger] pre[k]).name@ != e.name@);
                    assert(unique_names(self.entries@));
                    assert(ascii_names(self.entries@));
                }
                true
            },
        }
    }

    /// Create a paste from an upload stream.
    ///
    /// Draws fresh candidate identifiers until one names no existing file,
    /// compresses the payload, and commits it as a new regular file stamped
    /// `now`. A stream that broke off mid-transfer never becomes a visible
    /// paste: the directory is left exactly as it was. On success, reading
    /// the returned identifier from the new directory yields the full
    /// payload. A complete stream fails only against the directory: when
    /// every name the generator could draw is still free, success is owed.
    pub fn create(&mut self, gen: &IdGen, stream: &IngestStream, now: u64) -> (r: Result<
        String,
        Error,
    >)
        requires
            old(self).wf(),
            gen.wf(),
        ensures
            final(self).wf(),
            r is Err ==> r->Err_0 == Error::IoFault && final(self)@ == old(self)@,
            stream.interrupted ==> r is Err,
            !stream.interrupted && all_candidates_free(*gen, old(self)@) ==> r is Ok,
            r is Ok ==> {
                let id = r->Ok_0@;
                let name = storage_name_spec(id);
                &&& valid_id(id)
                &&& gen.can_generate(id)
                &&& !old(self)@.dom().contains(name)
                &&& final(self)@ == old(self)@.insert(
                    name,
                    FileModel {
                        data: compress_of(stream.content()),
                        created_at: now,
                        is_file: true,
                    },
                )
                &&& read_model(final(self)@, id) == ReadOutcome::Content(stream.content())
            },
    {
        // Drain the stream into one payload buffer.
        let mut payload: Vec<u8> = Vec::new();
        let n_chunks = stream.chunks.len();
        let mut ci: usize = 0;
        proof {
            assert(concat_vecs(stream.chunks@.take(0)) =~= payload@);
        }
        while ci < n_chunks
            invariant
                n_chunks == stream.chunks@.len(),
                ci <= n_chunks,
                payload@ == concat_vecs(stream.chunks@.take(ci as int)),
            decreases n_chunks - ci,
        {
            let chunk = &stream.chunks[ci];
            let m = chunk.len();
            let mut j: usize = 0;
            while j < m
                invariant
                    m == chunk@.len(),
                    j <= m,
                    payload@ == concat_vecs(stream.chunks@.take(ci as int)) + chunk@.take(j as int),
                decreases m - j,
            {
                payload.push(chunk[j]);
                assert(payload@ =~= concat_vecs(stream.chunks@.take(ci as int)) + chunk@.take(
                    j + 1,
                ));
                j += 1;
            }
            proof {
                assert(stream.chunks@.take(ci + 1).drop_last() =~= stream.chunks@.take(ci as int));
                assert(stream.chunks@.take(ci + 1).last() == stream.chunks@[ci as int]);
                assert(chunk@.take(m as int) =~= chunk@);
            }
            ci += 1;
        }
        proof {
            assert(stream.chunks@.take(n_chunks as int) =~= stream.chunks@);
        }
        // A stream that errored out mid-transfer must not leave a visible
        // paste behind.
        if stream.interrupted {
            return Err(Error::IoFault);
        }
        let compressed = encode_paste(payload.as_slice());
        let mut attempts: usize = 0;
        while attempts < MAX_CREATE_ATTEMPTS
            invariant
                self == old(self),
                self.wf(),
                gen.wf(),
                !stream.interrupted,
                payload@ == stream.content(),
                compressed@ == compress_of(stream.content()),
                decompressed_of(compressed@) == Some(stream.content()),
                attempts > 0 ==> !all_candidates_free(*gen, old(self)@),
            decreases MAX_CREATE_ATTEMPTS - attempts,
        {
            let id = gen.generate();
            proof {
                assert forall|i: int| 0 <= i < id@.len() implies '\0' <= #[trigger] id@[i]
                    <= '\u{7f}' by {
                    assert(is_lower_alpha(id@[i]));
                }
            }
            let name = storage_name(id.as_str());
            proof {
                lemma_lower_chars_of_valid_id(id@);
            }
            match self.find(&name) {
                None => {
                    let e = Entry { name, data: compressed, created_at: now, is_file: true };
                    proof {
                        lemma_model_contains(self.entries@, e.name@);
                        lemma_model_push(self.entries@, e);
                    }
                    let ghost pre = self.entries@;
                    self.entries.push(e);
                    proof {
                        assert(forall|k: int|
                            0 <= k < pre.len() ==> (#[trigger] pre[k]).name@ != e.name@);
                        assert(unique_names(self.entries@));
                        assert(ascii_names(self.entries@));
                    }
                    return Ok(id);
                },
                Some(hit) => {
                    // A candidate collided: some producible name is taken,
                    // so success is not owed on this directory.
                    proof {
                        assert(self.entries@[hit as int].name@ == storage_name_spec(id@));
                        lemma_model_contains(self.entries@, name@);
                        assert(old(self)@.dom().contains(storage_name_spec(id@)));
                        assert(!all_candidates_free(*gen, old(self)@));
                    }
                },
            }
            attempts += 1;
        }
        // The keyspace looks exhausted: report an I/O fault rather than loop.
        Err(Error::IoFault)
    }

    /// Retrieve a paste's full content by identifier.
    ///
    /// The identifier is folded to lowercase before the path is derived, so
    /// retrieval is case-insensitive. A path naming nothing, or not a
    /// regular file, is a not-found outcome, never an error; a stream that
    /// does not decode is an I/O fault.
    pub fn read(&self, id: &str) -> (r: Result<Vec<u8>, Error>)
        requires
            self.wf(),
        ensures
            match read_model(self@, id@) {
                ReadOutcome::Content(b) => r is Ok && r->Ok_0@ == b,
                ReadOutcome::NotFound => r is Err && r->Err_0 == Error::NotFound,
                ReadOutcome::Corrupt => r is Err && r->Err_0 == Error::IoFault,
            },
    {
        if !id.is_ascii() {
            proof {
                let name = storage_name_spec(id@);
                if self@.dom().contains(name) {
                    lemma_model_contains(self.entries@, name);
                    let i = choose|i: int|
                        0 <= i < self.entries@.len() && (#[trigger] self.entries@[i]).name@
                            == name;
                    assert(vstd::utf8::is_ascii_chars(name));
                    assert forall|k: int| 0 <= k < id@.len() implies '\0' <= #[trigger] id@[k]
                        <= '\u{7f}' by {
                        assert(name[k] == crate::text::lower_char(id@[k]));
                        assert('\0' <= name[k] <= '\u{7f}');
                    }
                    assert(vstd::utf8::is_ascii_chars(id@));
                }
            }
            return Err(Error::NotFound);
        }
        let name = storage_name(id);
        match self.find(&name) {
            None => Err(Error::NotFound),
            Some(i) => {
                proof {
                    lemma_model_index(self.entries@, i as int);
                }
                let e = &self.entries[i];
                if !e.is_file {
                    Err(Error::NotFound)
                } else {
                    decode_paste(e.data.as_slice())
                }
            },
        }
    }

    /// One retention pass: delete every regular file whose age at `now` is
    /// at least `ttl_days` days, keep everything else, and report how many
    /// objects were deleted. With `ttl_days == 0` the pass removes nothing.
    pub fn sweep(&mut self, now: u64, ttl_days: u32) -> (removed: u64)
        requires
            old(self).wf(),
        ensures
            final(self).wf(),
            sweep_rel(old(self)@, final(self)@, now, ttl_days),
            ttl_days == 0 ==> final(self)@ == old(self)@,
            removed as int == old(self)@.len() - final(self)@.len(),
    {
        let ghost orig = self.entries@;
        let total = self.entries.len();
        let ttl_secs: u64 = (ttl_days as u64) * 86400;
        let mut kept: Vec<Entry> = Vec::new();
        let mut removed: u64 = 0;
        let mut p: usize = 0;
        proof {
            assert(self.entries@ =~= orig.skip(0));
        }
        while p < total
            invariant
                total == orig.len(),
                p <= total,
                unique_names(orig),
                ascii_names(orig),
                self.entries@ == orig.skip(p as int),
                ttl_secs == (ttl_days as int) * 86400,
                unique_names(kept@),
                ascii_names(kept@),
                forall|k: int|
                    0 <= k < kept@.len() ==> exists|j: int|
                        0 <= j < p && #[trigger] kept@[k] == orig[j],
                forall|n: Seq<char>|
                    #![auto]
                    entries_model(kept@).dom().contains(n) <==> exists|j: int|
                        0 <= j < p && (#[trigger] orig[j]).name@ == n && !expired(
                            entry_model(orig[j]),
                            now,
                            ttl_days,
                        ),
                forall|j: int|
                    0 <= j < p && !expired(entry_model(#[trigger] orig[j]), now, ttl_days)
                        ==> entries_model(kept@)[orig[j].name@] == entry_model(orig[j]),
                removed <= p,
                removed as int == p - kept@.len(),
            decreases total - p,
        {
            let e = self.entries.remove(0);
            proof {
                assert(e == orig[p as int]);
                assert(orig.skip(p as int).remove(0) =~= orig.skip(p + 1));
            }
            let is_expired = ttl_days != 0 && e.is_file && now >= e.created_at && now
                - e.created_at >= ttl_secs;
            proof {
                assert(is_expired == expired(entry_model(orig[p as int]), now, ttl_days));
            }
            if is_expired {
                removed += 1;
            } else {
                proof {
                    assert forall|k: int| 0 <= k < kept@.len() implies (#[trigger] kept@[k]).name@
                        != e.name@ by {
                        let j = choose|j: int| 0 <= j < p && #[trigger] kept@[k] == orig[j];
                        assert(orig[j].name@ != orig[p as int].name@);
                    }
                    lemma_model_contains(kept@, e.name@);
                    lemma_model_push(kept@, e);
                }
                let ghost kept_pre = kept@;
                kept.push(e);
                proof {
                    assert(unique_names(kept@));
                    assert(ascii_names(kept@));
                    assert forall|k: int| 0 <= k < kept@.len() implies exists|j: int|
                        0 <= j < p + 1 && #[trigger] kept@[k] == orig[j] by {
                        if k < kept_pre.len() {
                            let j = choose|j: int| 0 <= j < p && #[trigger] kept_pre[k] == orig[j];
                            assert(kept@[k] == orig[j]);
                        } else {
                            assert(kept@[k] == orig[p as int]);
                        }
                    }
                }
            }
            p += 1;
        }
        proof {
            assert(orig.skip(total as int) =~= Seq::<Entry>::empty());
        }
        self.entries = kept;
        proof {
            let pre = entries_model(orig);
            let post = entries_model(self.entries@);
            assert forall|n: Seq<char>|
                #![auto]
                post.dom().contains(n) <==> (pre.dom().contains(n) && !expired(
                    pre[n],
                    now,
                    ttl_days,
                )) by {
                lemma_model_contains(orig, n);
                if pre.dom().contains(n) {
                    let j = choose|j: int|
                        0 <= j < orig.len() && (#[trigger] orig[j]).name@ == n;
                    lemma_model_index(orig, j);
                    assert(pre[n] == entry_model(orig[j]));
                    if post.dom().contains(n) {
                        let j2 = choose|j2: int|
                            0 <= j2 < total && (#[trigger] orig[j2]).name@ == n && !expired(
                                entry_model(orig[j2]),
                                now,
                                ttl_days,
                            );
                        assert(j2 == j || orig[j2].name@ != orig[j].name@);
                    }
                }
            }
            assert forall|n: Seq<char>| #[trigger] post.dom().contains(n) implies post[n]
                == pre[n] by {
                lemma_model_contains(orig, n);
                let j = choose|j: int|
                    0 <= j < total && (#[trigger] orig[j]).name@ == n && !expired(
                        entry_model(orig[j]),
                        now,
                        ttl_days,
                    );
                lemma_model_index(orig, j);
            }
            if ttl_days == 0 {
                assert(post =~= pre);
            }
            lemma_model_len(orig);
            lemma_model_len(self.entries@);
        }
        removed
    }

    /// Retrieve a paste as text for rendering: the content decoded as UTF-8
    /// with ill-formed sequences replaced — a display-only lossiness.
    pub fn read_text(&self, id: &str) -> (r: Result<String, Error>)
        requires
            self.wf(),
        ensures
            match read_model(self@, id@) {
                ReadOutcome::Content(b) => r is Ok && r->Ok_0@ == lossy_of(b),
                ReadOutcome::NotFound => r is Err && r->Err_0 == Error::NotFound,
                ReadOutcome::Corrupt => r is Err && r->Err_0 == Error::IoFault,
            },
    {
        match self.read(id) {
            Ok(bytes) => Ok(utf8_lossy(bytes.as_slice())),
            Err(e) => Err(e),
        }
    }
}

} // verus!
