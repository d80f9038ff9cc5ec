//! A cache of MurmurHash3 fingerprints, one per file path.
//!
//! A path is read and hashed the first time it is asked for. From then on the
//! cache answers with the value it holds, whatever has become of the file.

use vstd::hash_map::StringHashMap;
use vstd::prelude::*;

verus! {

/// The 32-bit MurmurHash3 of `bytes` with seed 0, widened to 64 bits: what
/// `fasthash::Murmur3Hasher` gives for one `write` of `bytes`.
pub uninterp spec fn murmur3_digest(bytes: Seq<u8>) -> u64;

/// The longest contents that can be hashed. fasthash hands the length to its
/// hash routine as a signed 32-bit number.
pub const MAX_CONTENT_LEN: usize = 0x7fff_ffff;

/// `fasthash::Murmur3Hasher`: a hasher made by `default()`, fed `contents` by
/// one `write`, and read by `finish()`. The hasher buffers what it is fed and
/// hashes the whole buffer with seed 0, so the result depends on `contents`
/// alone. Longer contents than `MAX_CONTENT_LEN` are kept away from it: their
/// length would reach the hash routine as a negative number.
#[verifier::external_body]
fn murmur3_of(contents: &[u8]) -> (hash: u64)
    requires
        contents@.len() <= MAX_CONTENT_LEN,
    ensures
        hash == murmur3_digest(contents@),
{
    let mut hasher = fasthash::Murmur3Hasher::default();
    std::hash::Hasher::write(&mut hasher, contents);
    std::hash::Hasher::finish(&hasher)
}

/// Why a path got no fingerprint.
#[derive(Clone, Debug, PartialEq, Eq)]
pub enum HashError<E> {
    /// The file could not be read; the reader's error is inside.
    Read(E),
    /// The file holds more than `MAX_CONTENT_LEN` bytes.
    TooLarge,
}

/// The fingerprint of what a read gave, or why there is none.
pub open spec fn fingerprint_of<E>(read: Result<Seq<u8>, E>) -> Result<u64, HashError<E>> {
    match read {
        Ok(bytes) => if bytes.len() <= MAX_CONTENT_LEN {
            Ok(murmur3_digest(bytes))
        } else {
            Err(HashError::TooLarge)
        },
        Err(error) => Err(HashError::Read(error)),
    }
}

/// The answer to a request for `path`: the cached value if there is one, else
/// the fingerprint of what reading the file gave.
pub open spec fn answer<E>(cache: Map<Seq<char>, u64>, path: Seq<char>, read: Result<Seq<u8>, E>)
    -> Result<u64, HashError<E>> {
    if cache.contains_key(path) {
        Ok(cache[path])
    } else {
        fingerprint_of(read)
    }
}

/// The cache after a request for `path`: a fresh fingerprint is stored, and
/// nothing else changes. A failure stores nothing.
pub open spec fn cache_after<E>(
    cache: Map<Seq<char>, u64>,
    path: Seq<char>,
    read: Result<Seq<u8>, E>,
) -> Map<Seq<char>, u64> {
    if cache.contains_key(path) {
        cache
    } else {
        match fingerprint_of(read) {
            Ok(hash) => cache.insert(path, hash),
            Err(_) => cache,
        }
    }
}

/// The cache after `times` requests for `path`, each of which would find
/// `read` if it read the file.
pub open spec fn after_repeats<E>(
    cache: Map<Seq<char>, u64>,
    path: Seq<char>,
    read: Result<Seq<u8>, E>,
    times: nat,
) -> Map<Seq<char>, u64>
    decreases times,
{
    if times == 0 {
        cache
    } else {
        cache_after(after_repeats(cache, path, read, (times - 1) as nat), path, read)
    }
}

/// What a read gave, with the bytes as a sequence.
pub open spec fn read_view<E>(read: Result<Vec<u8>, E>) -> Result<Seq<u8>, E> {
    match read {
        Ok(contents) => Ok(contents@),
        Err(error) => Err(error),
    }
}

/// Memoises the MurmurHash3 fingerprint of each file by its path.
pub struct Murmur3Hasher {
    cache: StringHashMap<u64>,
}

impl View for Murmur3Hasher {
    type V = Map<Seq<char>, u64>;

    closed spec fn view(&self) -> Map<Seq<char>, u64> {
        self.cache@
    }
}

impl Murmur3Hasher {
    /// An empty cache.
    pub fn new() -> (hasher: Self)
        ensures
            hasher@ == Map::<Seq<char>, u64>::empty(),
    {
        Murmur3Hasher { cache: StringHashMap::new() }
    }

    /// The fingerprint that the cache holds for `filepath`, if any.
    pub fn cached(&self, filepath: &str) -> (hash: Option<u64>)
        ensures
            hash == if self@.contains_key(filepath@) {
                Some(self@[filepath@])
            } else {
                None::<u64>
            },
    {
        match self.cache.get(filepath) {
            Some(hash) => Some(*hash),
            None => None,
        }
    }

    /// The fingerprint of `contents`, or `None` when they are longer than
    /// `MAX_CONTENT_LEN`.
    pub fn fingerprint(contents: &[u8]) -> (hash: Option<u64>)
        ensures
            hash == if contents@.len() <= MAX_CONTENT_LEN {
                Some(murmur3_digest(contents@))
            } else {
                None::<u64>
            },
    {
        if contents.len() <= MAX_CONTENT_LEN {
            Some(murmur3_of(contents))
        } else {
            None
        }
    }

    /// Answers a request for `filepath`, given what reading the file gave.
    ///
    /// A cached path is answered from the cache, and `read` is not looked at.
    /// Otherwise contents that could be read and hashed are stored under the
    /// path; a failure stores nothing, so the next request starts afresh.
    pub fn record<E>(&mut self, filepath: &str, read: Result<Vec<u8>, E>) -> (hash: Result<
        u64,
        HashError<E>,
    >)
        ensures
            hash == answer(old(self)@, filepath@, read_view(read)),
            final(self)@ == cache_after(old(self)@, filepath@, read_view(read)),
    {
        if let Some(hash) = self.cached(filepath) {
            return Ok(hash);
        }
        match read {
            Ok(contents) => match Self::fingerprint(contents.as_slice()) {
                Some(hash) => {
                    self.cache.insert(filepath.to_owned(), hash);
                    Ok(hash)
                },
                None => Err(HashError::TooLarge),
            },
            Err(error) => Err(HashError::Read(error)),
        }
    }

    /// The fingerprint of the file at `filepath`.
    ///
    /// The file is read, by `read`, only when the cache holds nothing for the
    /// path. What follows is [`Murmur3Hasher::record`] on what `read` gave.
    pub fn hash_file<E, F: FnOnce(&str) -> Result<Vec<u8>, E>>(
        &mut self,
        filepath: &str,
        read: F,
    ) -> (hash: Result<u64, HashError<E>>)
        requires
            !old(self)@.contains_key(filepath@) ==> call_requires(read, (filepath,)),
        ensures
            old(self)@.contains_key(filepath@) ==> hash == Ok::<u64, HashError<E>>(
                old(self)@[filepath@],
            ) && final(self)@ == old(self)@,
            !old(self)@.contains_key(filepath@) ==> exists|given: Result<Vec<u8>, E>|
                {
                    &&& call_ensures(read, (filepath,), given)
                    &&& hash == fingerprint_of(read_view(given))
                    &&& final(self)@ == cache_after(old(self)@, filepath@, read_view(given))
                },
    {
        if let Some(hash) = self.cached(filepath) {
            return Ok(hash);
        }
        let given = read(filepath);
        self.record(filepath, given)
    }
}

/// A file whose contents do not change gets the same answer at every
/// request, however many came before. If the contents can be hashed, the
/// first request stores them, so that from the second request on the path is
/// cached and no request reads the file again.
pub proof fn lemma_unchanged_file_hashes_alike<E>(
    cache: Map<Seq<char>, u64>,
    path: Seq<char>,
    bytes: Seq<u8>,
    earlier: nat,
)
    ensures
        answer::<E>(after_repeats::<E>(cache, path, Ok(bytes), earlier), path, Ok(bytes))
            == answer::<E>(cache, path, Ok(bytes)),
        earlier >= 1 && bytes.len() <= MAX_CONTENT_LEN ==> after_repeats::<E>(
            cache,
            path,
            Ok(bytes),
            earlier,
        ).contains_key(path),
        cache.contains_key(path) ==> after_repeats::<E>(cache, path, Ok(bytes), earlier) == cache,
    decreases earlier,
{
    if earlier > 0 {
        lemma_unchanged_file_hashes_alike::<E>(cache, path, bytes, (earlier - 1) as nat);
    }
}

/// The cache only grows: a request, for whatever path and with whatever
/// outcome of reading, keeps every cached path and its value. A cached path
/// is therefore answered with the value it was first given, also after the
/// file has changed or gone.
pub proof fn lemma_cached_value_is_kept<E>(
    cache: Map<Seq<char>, u64>,
    path: Seq<char>,
    asked: Seq<char>,
    read: Result<Seq<u8>, E>,
    later: Result<Seq<u8>, E>,
)
    requires
        cache.contains_key(path),
    ensures
        cache_after(cache, asked, read).contains_key(path),
        cache_after(cache, asked, read)[path] == cache[path],
        answer(cache_after(cache, asked, read), path, later) == Ok::<u64, HashError<E>>(
            cache[path],
        ),
{
}

/// A request that fails, because the file cannot be read or is too large,
/// leaves the cache as it was: the next request for the path reads again.
pub proof fn lemma_failure_is_not_cached<E>(
    cache: Map<Seq<char>, u64>,
    path: Seq<char>,
    read: Result<Seq<u8>, E>,
)
    requires
        answer(cache, path, read) is Err,
    ensures
        cache_after(cache, path, read) == cache,
        !cache_after(cache, path, read).contains_key(path),
{
}

/// Two files with the same contents get the same fingerprint, under whatever
/// paths and in whatever caches they are first asked for.
pub proof fn lemma_equal_contents_equal_fingerprints<E>(
    first_cache: Map<Seq<char>, u64>,
    first_path: Seq<char>,
    second_cache: Map<Seq<char>, u64>,
    second_path: Seq<char>,
    bytes: Seq<u8>,
)
    requires
        !first_cache.contains_key(first_path),
        !second_cache.contains_key(second_path),
    ensures
        answer::<E>(first_cache, first_path, Ok(bytes)) == answer::<E>(
            second_cache,
            second_path,
            Ok(bytes),
        ),
{
}

} // verus!
