//! The module cache: content-addressed storage of validated module bytes
//! with a pinned tier, an unpinned memory tier, a filesystem tier, and
//! hit/miss metrics.
//!
//! Entries are keyed by checksum. Saving is idempotent; removing is not, by
//! design, so a caller that removes twice learns of its own bookkeeping
//! fault. Pinning and unpinning are idempotent. Metrics counters only grow,
//! and exactly one of them moves per instance acquisition.

use vstd::prelude::*;
use vstd::slice::slice_to_vec;
use vstd::string::StringExecFns;
use vstd::utf8::decode_utf8;
use vstd::utf8::valid_utf8;
use crate::assoc::amap;
use crate::assoc::assoc_find;
use crate::assoc::distinct_keys;
use crate::assoc::lemma_amap_contains;
use crate::assoc::lemma_amap_get;
use crate::assoc::lemma_amap_len;
use crate::assoc::lemma_amap_push;
use crate::assoc::lemma_amap_remove;
use crate::calls::Instance;
use crate::db::Db;
use crate::db::IteratorVtable;
use crate::db::StorageVtable;
use crate::errors::ErrnoValue;
use crate::errors::RustError;
use crate::errors::handle_c_error_binary;
use crate::errors::handle_c_error_default;
use crate::errors::handle_c_error_ptr;
use crate::memory::ByteSliceView;
use crate::memory::UnmanagedVector;
use crate::storage::GoStorage;
use crate::text::parse_caps;
use crate::text::parse_capabilities;
use crate::text::split_csv;
use crate::text::csv_join;
use crate::text::join_csv;
use crate::text::sort_strings;
use crate::text::sorted_strict;
use crate::text::string_from_utf8;
use crate::text::string_views;
use crate::wasm::byte_views;
use crate::wasm::module_exports;
use crate::wasm::spec_has_reactive_exports;
use crate::wasm::spec_required_capabilities;
use sha2::Digest;

verus! {

/// What the SHA-256 digest of a byte sequence is.
pub uninterp spec fn sha256_of(data: Seq<u8>) -> Seq<u8>;

/// Relies on sha2's `Sha256`: a 32-byte digest of the input alone.
#[verifier::external_body]
fn sha256(data: &Vec<u8>) -> (r: Vec<u8>)
    ensures
        r@ == sha256_of(data@),
        r@.len() == 32,
{
    sha2::Sha256::digest(data.as_slice()).to_vec()
}

/// A content hash identifying a stored module: exactly 32 bytes, computed
/// once at save time and used as the cache key.
pub struct Checksum {
    bytes: Vec<u8>,
}

impl View for Checksum {
    type V = Seq<u8>;

    closed spec fn view(&self) -> Seq<u8> {
        self.bytes@
    }
}

impl Checksum {
    #[verifier::type_invariant]
    closed spec fn len_fixed(&self) -> bool {
        self.bytes@.len() == 32
    }

    /// Accepts exactly 32 bytes as a checksum.
    pub fn from_vec(bytes: Vec<u8>) -> (r: Option<Checksum>)
        ensures
            (r is Some <==> bytes@.len() == 32),
            (r matches Some(c) ==> c@ == bytes@),
    {
        if bytes.len() == 32 {
            Some(Checksum { bytes })
        } else {
            None
        }
    }

    /// The checksum of the given module bytes.
    pub fn generate(wasm: &Vec<u8>) -> (r: Checksum)
        ensures
            r@ == sha256_of(wasm@),
            r@.len() == 32,
    {
        Checksum { bytes: sha256(wasm) }
    }

    pub fn as_bytes(&self) -> (r: &Vec<u8>)
        ensures
            r@ == self@,
    {
        &self.bytes
    }

    pub fn to_vec(&self) -> (r: Vec<u8>)
        ensures
            r@ == self@,
    {
        slice_to_vec(self.bytes.as_slice())
    }

    pub fn into_vec(self) -> (r: Vec<u8>)
        ensures
            r@ == self@,
    {
        self.bytes
    }

    /// A second checksum with the same bytes.
    pub fn duplicate(&self) -> (r: Checksum)
        ensures
            r@ == self@,
    {
        proof {
            use_type_invariant(self);
        }
        Checksum { bytes: slice_to_vec(self.bytes.as_slice()) }
    }
}

/// The cache's state, abstractly: the capability set it was opened with,
/// the three tiers, and the hit and miss counters. Module entries in the
/// memory tiers carry their size estimate: the length of the stored blob.
#[verifier::ext_equal]
pub ghost struct CacheModel {
    pub caps: Seq<Seq<char>>,
    pub fs: Map<Seq<u8>, Seq<u8>>,
    pub memory: Map<Seq<u8>, u64>,
    pub pinned: Map<Seq<u8>, u64>,
    pub hits_pinned: u32,
    pub hits_memory: u32,
    pub hits_fs: u32,
    pub misses: u32,
}

/// One more hit or miss; the counter holds at its maximum.
pub open spec fn bump(c: u32) -> u32 {
    if c == u32::MAX {
        c
    } else {
        (c + 1) as u32
    }
}

/// Whether the capability set holds `c`.
pub open spec fn caps_contain(caps: Seq<Seq<char>>, c: Seq<char>) -> bool {
    caps.contains(c)
}

/// Whether every required-capability name is UTF-8 text.
pub open spec fn caps_decodable(req: Seq<Seq<u8>>) -> bool {
    forall|i: int| 0 <= i < req.len() ==> valid_utf8(#[trigger] req[i])
}

/// Whether a module passes static validation against a capability set: its
/// structure parses, its required-capability names are text, and every
/// required capability is available.
pub open spec fn validate_spec(wasm: Seq<u8>, caps: Seq<Seq<char>>) -> bool {
    &&& module_exports(wasm) is Some
    &&& caps_decodable(spec_required_capabilities(module_exports(wasm).unwrap()))
    &&& forall|i: int|
        0 <= i < spec_required_capabilities(module_exports(wasm).unwrap()).len()
            ==> caps_contain(
            caps,
            decode_utf8(#[trigger] spec_required_capabilities(module_exports(wasm).unwrap())[i]),
        )
}

/// Whether a save succeeds: an unchecked save always, a checked one exactly
/// when the module validates.
pub open spec fn save_ok(m: CacheModel, wasm: Seq<u8>, unchecked: bool) -> bool {
    unchecked || validate_spec(wasm, m.caps)
}

/// What a successful save does: the bytes enter the filesystem tier under
/// their digest; nothing else moves.
pub open spec fn save_model(m: CacheModel, wasm: Seq<u8>) -> CacheModel {
    CacheModel { fs: m.fs.insert(sha256_of(wasm), wasm), ..m }
}

/// Whether a load succeeds: exactly when the filesystem tier has the key.
pub open spec fn load_ok(m: CacheModel, cs: Seq<u8>) -> bool {
    m.fs.contains_key(cs)
}

/// Whether a removal succeeds, and what it does: the key leaves the
/// filesystem tier.
pub open spec fn remove_ok(m: CacheModel, cs: Seq<u8>) -> bool {
    m.fs.contains_key(cs)
}

pub open spec fn remove_model(m: CacheModel, cs: Seq<u8>) -> CacheModel {
    CacheModel { fs: m.fs.remove(cs), ..m }
}

/// Whether a pin succeeds: exactly when some tier knows the key.
pub open spec fn pin_ok(m: CacheModel, cs: Seq<u8>) -> bool {
    m.pinned.contains_key(cs) || m.memory.contains_key(cs) || m.fs.contains_key(cs)
}

/// What a pin does: already pinned, nothing; in the memory tier, the module
/// moves to the pinned tier as a memory hit; else, found on disk, it is
/// compiled into the pinned tier as a filesystem hit; unknown, nothing.
pub open spec fn pin_model(m: CacheModel, cs: Seq<u8>) -> CacheModel {
    if m.pinned.contains_key(cs) {
        m
    } else if m.memory.contains_key(cs) {
        CacheModel {
            memory: m.memory.remove(cs),
            pinned: m.pinned.insert(cs, m.memory[cs]),
            hits_memory: bump(m.hits_memory),
            ..m
        }
    } else if m.fs.contains_key(cs) {
        CacheModel {
            pinned: m.pinned.insert(cs, m.fs[cs].len() as u64),
            hits_fs: bump(m.hits_fs),
            ..m
        }
    } else {
        m
    }
}

/// What an unpin does: the key leaves the pinned tier; unpinning an
/// unpinned key does nothing, and never fails.
pub open spec fn unpin_model(m: CacheModel, cs: Seq<u8>) -> CacheModel {
    CacheModel { pinned: m.pinned.remove(cs), ..m }
}

/// Whether acquiring an instance succeeds: exactly when some tier knows the
/// key.
pub open spec fn get_instance_ok(m: CacheModel, cs: Seq<u8>) -> bool {
    pin_ok(m, cs)
}

/// What acquiring an instance does to the cache: the tiers are consulted in
/// order — pinned, memory, filesystem — and exactly one counter moves; a
/// filesystem hit compiles the module into the memory tier.
pub open spec fn get_instance_model(m: CacheModel, cs: Seq<u8>) -> CacheModel {
    if m.pinned.contains_key(cs) {
        CacheModel { hits_pinned: bump(m.hits_pinned), ..m }
    } else if m.memory.contains_key(cs) {
        CacheModel { hits_memory: bump(m.hits_memory), ..m }
    } else if m.fs.contains_key(cs) {
        CacheModel {
            memory: m.memory.insert(cs, m.fs[cs].len() as u64),
            hits_fs: bump(m.hits_fs),
            ..m
        }
    } else {
        CacheModel { misses: bump(m.misses), ..m }
    }
}

/// Whether static introspection succeeds: the filesystem tier has the key,
/// the stored bytes parse, and every required-capability name is text.
pub open spec fn analyze_ok(m: CacheModel, cs: Seq<u8>) -> bool {
    &&& m.fs.contains_key(cs)
    &&& module_exports(m.fs[cs]) is Some
    &&& caps_decodable(spec_required_capabilities(module_exports(m.fs[cs]).unwrap()))
}

/// A cache with nothing stored and all counters at zero.
pub open spec fn fresh_model(caps: Seq<Seq<char>>) -> CacheModel {
    CacheModel {
        caps,
        fs: Map::empty(),
        memory: Map::empty(),
        pinned: Map::empty(),
        hits_pinned: 0,
        hits_memory: 0,
        hits_fs: 0,
        misses: 0,
    }
}

/// The message of a checked save that rejects the module's bytes.
pub open spec fn deserialize_msg() -> Seq<char> {
    "Cache error: Wasm bytecode could not be deserialized"@
}

/// The message naming the first required capability the cache lacks.
pub open spec fn capability_msg(cap: Seq<char>) -> Seq<char> {
    "Cache error: Wasm contract requires unavailable capability: "@ + cap
}

/// The message of a checked save that refuses the module: its bytes do not
/// parse (or a capability name is not text), or the first required
/// capability the cache lacks is named.
pub open spec fn save_err_msg(wasm: Seq<u8>, caps: Seq<Seq<char>>) -> Seq<char> {
    if module_exports(wasm) is None || !caps_decodable(
        spec_required_capabilities(module_exports(wasm).unwrap()),
    ) {
        deserialize_msg()
    } else {
        capability_msg(
            first_missing(spec_required_capabilities(module_exports(wasm).unwrap()), caps),
        )
    }
}

/// The message of a load or pin that finds nothing under the checksum.
pub open spec fn not_found_msg() -> Seq<char> {
    "Cache error: Error opening Wasm file for reading"@
}

/// The message of a removal that finds nothing under the checksum.
pub open spec fn remove_missing_msg() -> Seq<char> {
    "Cache error: Wasm file does not exist"@
}

/// The first required capability, in export order, that the set lacks.
pub open spec fn first_missing(req: Seq<Seq<u8>>, caps: Seq<Seq<char>>) -> Seq<char>
    decreases req.len(),
{
    if req.len() == 0 {
        Seq::empty()
    } else if !caps_contain(caps, decode_utf8(req[0])) {
        decode_utf8(req[0])
    } else {
        first_missing(req.skip(1), caps)
    }
}

proof fn lemma_first_missing_skip(req: Seq<Seq<u8>>, caps: Seq<Seq<char>>, i: int)
    requires
        0 <= i < req.len(),
        forall|j: int| 0 <= j < i ==> caps_contain(caps, decode_utf8(#[trigger] req[j])),
        !caps_contain(caps, decode_utf8(req[i])),
    ensures
        first_missing(req, caps) == decode_utf8(req[i]),
    decreases i,
{
    if i == 0 {
    } else {
        assert(req.skip(1)[i - 1] == req[i]);
        assert(forall|j: int|
            0 <= j < i - 1 ==> (#[trigger] req.skip(1)[j]) == req[j + 1]);
        lemma_first_missing_skip(req.skip(1), caps, i - 1);
    }
}

/// The filesystem tier with its stored bytes read abstractly.
pub open spec fn fs_pairs(s: Seq<(Vec<u8>, Vec<u8>)>) -> Seq<(Vec<u8>, Seq<u8>)> {
    s.map_values(|e: (Vec<u8>, Vec<u8>)| (e.0, e.1@))
}

/// Key distinctness carries over to the abstract reading of the tier.
proof fn lemma_fs_pairs_distinct(s: Seq<(Vec<u8>, Vec<u8>)>)
    requires
        distinct_keys(s),
    ensures
        distinct_keys(fs_pairs(s)),
{
    assert forall|i: int, j: int|
        0 <= i < j < fs_pairs(s).len() implies (#[trigger] fs_pairs(s)[i]).0@ != (
    #[trigger] fs_pairs(s)[j]).0@ by {
        assert(s[i].0@ != s[j].0@);
    }
}

/// A key is in the abstract tier exactly when an entry holds it.
proof fn lemma_fs_pairs_contains(s: Seq<(Vec<u8>, Vec<u8>)>, k: Seq<u8>)
    ensures
        amap(fs_pairs(s)).contains_key(k) <==> exists|i: int|
            0 <= i < s.len() && (#[trigger] s[i]).0@ == k,
{
    lemma_amap_contains(fs_pairs(s), k);
    if exists|i: int| 0 <= i < fs_pairs(s).len() && (#[trigger] fs_pairs(s)[i]).0@ == k {
        let i = choose|i: int| 0 <= i < fs_pairs(s).len() && (#[trigger] fs_pairs(s)[i]).0@ == k;
        assert((s[i]).0@ == k);
    }
    if exists|i: int| 0 <= i < s.len() && (#[trigger] s[i]).0@ == k {
        let i = choose|i: int| 0 <= i < s.len() && (#[trigger] s[i]).0@ == k;
        assert((fs_pairs(s)[i]).0@ == k);
    }
}

/// The module cache. The filesystem tier is modelled in memory: the data
/// directory given at initialization identifies the store, and what only a
/// filesystem can give — persistence across processes — stays with the
/// embedding application.
#[allow(non_camel_case_types)]
pub struct cache_t {
    data_dir: String,
    available_capabilities: Vec<String>,
    fs: Vec<(Vec<u8>, Vec<u8>)>,
    memory: Vec<(Vec<u8>, u64)>,
    pinned: Vec<(Vec<u8>, u64)>,
    hits_pinned_memory_cache: u32,
    hits_memory_cache: u32,
    hits_fs_cache: u32,
    misses: u32,
    size_pinned: u64,
    size_memory: u64,
    memory_cache_size_mib: u32,
    instance_memory_limit_mib: u32,
}

impl cache_t {
    /// Each tier holds each key at most once.
    pub closed spec fn wf(&self) -> bool {
        &&& distinct_keys(self.fs@)
        &&& distinct_keys(self.memory@)
        &&& distinct_keys(self.pinned@)
    }

    /// The cache's abstract state.
    pub closed spec fn model(&self) -> CacheModel {
        CacheModel {
            caps: string_views(self.available_capabilities@),
            fs: amap(fs_pairs(self.fs@)),
            memory: amap(self.memory@),
            pinned: amap(self.pinned@),
            hits_pinned: self.hits_pinned_memory_cache,
            hits_memory: self.hits_memory_cache,
            hits_fs: self.hits_fs_cache,
            misses: self.misses,
        }
    }

    /// The summed size estimates of the pinned tier, tracked as entries
    /// come and go and held at the machine's bounds.
    pub closed spec fn pinned_size_sum(&self) -> u64 {
        self.size_pinned
    }

    /// The summed size estimates of the unpinned memory tier, tracked the
    /// same way.
    pub closed spec fn memory_size_sum(&self) -> u64 {
        self.size_memory
    }

    /// Opens a cache over the given data directory with the given
    /// capability set.
    pub fn new(
        data_dir: String,
        available_capabilities: Vec<String>,
        memory_cache_size_mib: u32,
        instance_memory_limit_mib: u32,
    ) -> (r: cache_t)
        ensures
            r.wf(),
            r.model() =~~= fresh_model(string_views(available_capabilities@)),
            r.pinned_size_sum() == 0,
            r.memory_size_sum() == 0,
    {
        let r = cache_t {
            data_dir,
            available_capabilities,
            fs: Vec::new(),
            memory: Vec::new(),
            pinned: Vec::new(),
            hits_pinned_memory_cache: 0,
            hits_memory_cache: 0,
            hits_fs_cache: 0,
            misses: 0,
            size_pinned: 0,
            size_memory: 0,
            memory_cache_size_mib,
            instance_memory_limit_mib,
        };
        proof {
            assert(r.model().fs =~= Map::<Seq<u8>, Seq<u8>>::empty());
            assert(r.model().memory =~= Map::<Seq<u8>, u64>::empty());
            assert(r.model().pinned =~= Map::<Seq<u8>, u64>::empty());
        }
        r
    }

    /// Statically validates module bytes against the available capability
    /// set, with the reason the module is refused.
    #[verifier::loop_isolation(false)]
    fn validate(&self, wasm: &Vec<u8>) -> (r: Result<(), RustError>)
        ensures
            (r is Ok <==> validate_spec(wasm@, self.model().caps)),
            (r matches Err(e) ==> e matches RustError::VmErr { msg } && msg@ == save_err_msg(
                wasm@,
                self.model().caps,
            )),
    {
        let exports = match crate::wasm::scan_module_exports(wasm) {
            None => {
                return Err(RustError::vm_err("Cache error: Wasm bytecode could not be deserialized"));
            },
            Some(exports) => exports,
        };
        let req = crate::wasm::required_capabilities(&exports);
        let ghost req_views = spec_required_capabilities(module_exports(wasm@).unwrap());
        proof {
            assert(byte_views(req@) == req_views);
        }
        let n = req.len();
        let mut decoded: Vec<String> = Vec::new();
        let mut i: usize = 0;
        while i < n
            invariant
                n == req@.len(),
                byte_views(req@) == req_views,
                0 <= i <= n,
                decoded@.len() == i,
                forall|j: int|
                    0 <= j < i ==> valid_utf8(#[trigger] req_views[j]) && decoded@[j]@
                        == decode_utf8(req_views[j]),
            decreases n - i,
        {
            proof {
                assert(req_views[i as int] == req@[i as int]@);
            }
            match string_from_utf8(slice_to_vec(req[i].as_slice())) {
                Ok(s) => {
                    decoded.push(s);
                },
                Err(_) => {
                    proof {
                        assert(spec_required_capabilities(module_exports(wasm@).unwrap())[
                            i as int
                        ] == req_views[i as int]);
                        assert(!valid_utf8(
                            spec_required_capabilities(module_exports(wasm@).unwrap())[i as int],
                        ));
                        assert(!caps_decodable(
                            spec_required_capabilities(module_exports(wasm@).unwrap()),
                        ));
                    }
                    return Err(
                        RustError::vm_err("Cache error: Wasm bytecode could not be deserialized"),
                    );
                },
            }
            i += 1;
        }
        let mut k: usize = 0;
        while k < n
            invariant
                n == req@.len(),
                byte_views(req@) == req_views,
                decoded@.len() == n,
                caps_decodable(req_views),
                forall|j: int|
                    0 <= j < n ==> decoded@[j]@ == decode_utf8(#[trigger] req_views[j]),
                0 <= k <= n,
                forall|j: int|
                    0 <= j < k ==> caps_contain(
                        self.model().caps,
                        decode_utf8(#[trigger] req_views[j]),
                    ),
            decreases n - k,
        {
            if !crate::text::contains_string(&self.available_capabilities, &decoded[k]) {
                proof {
                    assert(!caps_contain(self.model().caps, decode_utf8(req_views[k as int])))
                        by {
                        if caps_contain(self.model().caps, decoded@[k as int]@) {
                            let w = choose|w: int|
                                0 <= w < self.model().caps.len() && self.model().caps[w]
                                    == decoded@[k as int]@;
                            assert(self.available_capabilities@[w]@ == decoded@[k as int]@);
                        }
                    }
                    lemma_first_missing_skip(req_views, self.model().caps, k as int);
                    assert(spec_required_capabilities(module_exports(wasm@).unwrap())[k as int]
                        == req_views[k as int]);
                    assert(!caps_contain(
                        self.model().caps,
                        decode_utf8(
                            spec_required_capabilities(module_exports(wasm@).unwrap())[k as int],
                        ),
                    ));
                    assert forall|j: int|
                        0 <= j < spec_required_capabilities(module_exports(wasm@).unwrap()).len()
                            implies valid_utf8(
                        #[trigger] spec_required_capabilities(module_exports(wasm@).unwrap())[j],
                    ) by {
                        assert(spec_required_capabilities(module_exports(wasm@).unwrap())[j]
                            == req_views[j]);
                    }
                }
                let mut msg = String::from_str(
                    "Cache error: Wasm contract requires unavailable capability: ",
                );
                msg.append(decoded[k].as_str());
                return Err(RustError::vm_err_string(msg));
            }
            proof {
                assert(caps_contain(self.model().caps, decoded@[k as int]@)) by {
                    let w = choose|w: int|
                        0 <= w < self.available_capabilities@.len() && (
                        #[trigger] self.available_capabilities@[w])@ == decoded@[k as int]@;
                    assert(string_views(self.available_capabilities@)[w] == decoded@[k as int]@);
                }
            }
            k += 1;
        }
        proof {
            assert forall|j: int|
                0 <= j < spec_required_capabilities(module_exports(wasm@).unwrap()).len()
                    implies valid_utf8(
                #[trigger] spec_required_capabilities(module_exports(wasm@).unwrap())[j],
            ) && caps_contain(
                self.model().caps,
                decode_utf8(spec_required_capabilities(module_exports(wasm@).unwrap())[j]),
            ) by {
                assert(spec_required_capabilities(module_exports(wasm@).unwrap())[j]
                    == req_views[j]);
            }
        }
        Ok(())
    }

    /// Saves module bytes: computes their checksum, validates them unless
    /// `unchecked`, and stores them in the filesystem tier under the
    /// checksum. Saving the same bytes again succeeds and changes nothing.
    pub fn save_wasm(&mut self, wasm: &Vec<u8>, unchecked: bool) -> (r: Result<
        Checksum,
        RustError,
    >)
        requires
            old(self).wf(),
        ensures
            final(self).wf(),
            (r is Ok <==> save_ok(old(self).model(), wasm@, unchecked)),
            (r matches Ok(c) ==> c@ == sha256_of(wasm@) && c@.len() == 32 && final(self).model()
                =~~= save_model(old(self).model(), wasm@)),
            (r is Err ==> final(self).model() == old(self).model()),
            (r matches Err(e) ==> e matches RustError::VmErr { msg } && msg@ == save_err_msg(
                wasm@,
                old(self).model().caps,
            )),
            final(self).pinned_size_sum() == old(self).pinned_size_sum(),
            final(self).memory_size_sum() == old(self).memory_size_sum(),
    {
        if !unchecked {
            match self.validate(wasm) {
                Ok(()) => {},
                Err(e) => {
                    return Err(e);
                },
            }
        }
        let checksum = Checksum::generate(wasm);
        let key = checksum.to_vec();
        let ghost old_fs = self.fs@;
        proof {
            lemma_fs_pairs_contains(self.fs@, key@);
        }
        match assoc_find(&self.fs, &key) {
            Some(i) => {
                proof {
                    lemma_fs_pairs_distinct(self.fs@);
                    lemma_amap_remove(fs_pairs(self.fs@), i as int);
                    assert(fs_pairs(self.fs@.remove(i as int)) =~= fs_pairs(self.fs@).remove(
                        i as int,
                    ));
                }
                let _ = self.fs.remove(i);
            },
            None => {},
        }
        let ghost mid_fs = self.fs@;
        proof {
            lemma_fs_pairs_contains(mid_fs, key@);
        }
        self.fs.push((key, slice_to_vec(wasm.as_slice())));
        proof {
            let last = self.fs@.last();
            assert(self.fs@ == mid_fs.push(last));
            assert(fs_pairs(self.fs@) =~= fs_pairs(mid_fs).push((last.0, last.1@)));
            lemma_amap_push(fs_pairs(mid_fs), last.0, last.1@);
            assert(amap(fs_pairs(self.fs@)) =~= amap(fs_pairs(old_fs)).insert(
                sha256_of(wasm@),
                wasm@,
            ));
            assert(final(self).model() =~~= save_model(old(self).model(), wasm@));
        }
        Ok(checksum)
    }

    /// Loads the module bytes stored under a checksum, exactly when the
    /// filesystem tier has them.
    pub fn load_wasm(&self, checksum: &Checksum) -> (r: Result<Vec<u8>, RustError>)
        requires
            self.wf(),
        ensures
            (r is Ok <==> load_ok(self.model(), checksum@)),
            (r matches Ok(w) ==> w@ == self.model().fs[checksum@]),
            (r matches Err(e) ==> e matches RustError::VmErr { msg } && msg@ == not_found_msg()),
    {
        proof {
            lemma_fs_pairs_contains(self.fs@, checksum@);
        }
        match assoc_find(&self.fs, checksum.as_bytes()) {
            Some(i) => {
                proof {
                    lemma_fs_pairs_distinct(self.fs@);
                    lemma_amap_get(fs_pairs(self.fs@), i as int);
                }
                Ok(slice_to_vec(self.fs[i].1.as_slice()))
            },
            None => {
                proof {
                    lemma_fs_pairs_contains(self.fs@, checksum@);
                }
                Err(RustError::vm_err("Cache error: Error opening Wasm file for reading"))
            },
        }
    }

    /// Removes the module stored under a checksum from the filesystem tier.
    /// Removing an absent checksum fails — by design, so a double removal is
    /// caught.
    pub fn remove_wasm(&mut self, checksum: &Checksum) -> (r: Result<(), RustError>)
        requires
            old(self).wf(),
        ensures
            final(self).wf(),
            (r is Ok <==> remove_ok(old(self).model(), checksum@)),
            (r is Ok ==> final(self).model() =~~= remove_model(old(self).model(), checksum@)),
            (r is Err ==> final(self).model() == old(self).model()),
            (r matches Err(e) ==> e matches RustError::VmErr { msg } && msg@
                == remove_missing_msg()),
            final(self).pinned_size_sum() == old(self).pinned_size_sum(),
            final(self).memory_size_sum() == old(self).memory_size_sum(),
    {
        proof {
            lemma_fs_pairs_contains(self.fs@, checksum@);
        }
        match assoc_find(&self.fs, checksum.as_bytes()) {
            Some(i) => {
                proof {
                    lemma_fs_pairs_distinct(self.fs@);
                    lemma_amap_get(fs_pairs(self.fs@), i as int);
                    lemma_amap_remove(fs_pairs(self.fs@), i as int);
                    assert(fs_pairs(self.fs@.remove(i as int)) =~= fs_pairs(self.fs@).remove(
                        i as int,
                    ));
                }
                let _ = self.fs.remove(i);
                proof {
                    assert(final(self).model() =~~= remove_model(old(self).model(), checksum@));
                }
                Ok(())
            },
            None => {
                proof {
                    lemma_fs_pairs_contains(self.fs@, checksum@);
                }
                Err(RustError::vm_err("Cache error: Wasm file does not exist"))
            },
        }
    }

    /// Pins a module into the in-memory pinned tier, loading it from the
    /// memory or filesystem tier; pinning a pinned module does nothing.
    pub fn pin(&mut self, checksum: &Checksum) -> (r: Result<(), RustError>)
        requires
            old(self).wf(),
        ensures
            final(self).wf(),
            (r is Ok <==> pin_ok(old(self).model(), checksum@)),
            final(self).model() =~~= pin_model(old(self).model(), checksum@),
            (r matches Err(e) ==> e matches RustError::VmErr { msg } && msg@ == not_found_msg()),
            final(self).pinned_size_sum() == pin_pinned_size(
                old(self).model(),
                checksum@,
                old(self).pinned_size_sum(),
            ),
            final(self).memory_size_sum() == pin_memory_size(
                old(self).model(),
                checksum@,
                old(self).memory_size_sum(),
            ),
    {
        proof {
            lemma_amap_contains(self.pinned@, checksum@);
            lemma_amap_contains(self.memory@, checksum@);
            lemma_fs_pairs_contains(self.fs@, checksum@);
        }
        if assoc_find(&self.pinned, checksum.as_bytes()).is_some() {
            return Ok(());
        }
        let ghost old_pinned = self.pinned@;
        match assoc_find(&self.memory, checksum.as_bytes()) {
            Some(i) => {
                proof {
                    lemma_amap_get(self.memory@, i as int);
                    lemma_amap_remove(self.memory@, i as int);
                }
                let entry = self.memory.remove(i);
                let size = entry.1;
                self.pinned.push(entry);
                self.hits_memory_cache = bump_counter(self.hits_memory_cache);
                self.size_pinned = sat_add_u64(self.size_pinned, size);
                self.size_memory = sat_sub_u64(self.size_memory, size);
                proof {
                    lemma_amap_push(old_pinned, self.pinned@.last().0, self.pinned@.last().1);
                    assert(self.pinned@ == old_pinned.push(self.pinned@.last()));
                    assert(final(self).model() =~~= pin_model(old(self).model(), checksum@));
                }
                Ok(())
            },
            None => {
                match assoc_find(&self.fs, checksum.as_bytes()) {
                    Some(i) => {
                        proof {
                            lemma_fs_pairs_distinct(self.fs@);
                            lemma_amap_get(fs_pairs(self.fs@), i as int);
                        }
                        let size = self.fs[i].1.len() as u64;
                        self.pinned.push((checksum.to_vec(), size));
                        self.hits_fs_cache = bump_counter(self.hits_fs_cache);
                        self.size_pinned = sat_add_u64(self.size_pinned, size);
                        proof {
                            lemma_amap_push(
                                old_pinned,
                                self.pinned@.last().0,
                                self.pinned@.last().1,
                            );
                            assert(self.pinned@ == old_pinned.push(self.pinned@.last()));
                            assert(final(self).model() =~~= pin_model(old(self).model(), checksum@));
                        }
                        Ok(())
                    },
                    None => Err(
                        RustError::vm_err("Cache error: Error opening Wasm file for reading"),
                    ),
                }
            },
        }
    }

    /// Unpins a module. Unpinning an unpinned checksum does nothing; this
    /// never fails.
    pub fn unpin(&mut self, checksum: &Checksum) -> (r: Result<(), RustError>)
        requires
            old(self).wf(),
        ensures
            final(self).wf(),
            r is Ok,
            final(self).model() =~~= unpin_model(old(self).model(), checksum@),
            final(self).pinned_size_sum() == unpin_pinned_size(
                old(self).model(),
                checksum@,
                old(self).pinned_size_sum(),
            ),
            final(self).memory_size_sum() == old(self).memory_size_sum(),
    {
        proof {
            lemma_amap_contains(self.pinned@, checksum@);
        }
        match assoc_find(&self.pinned, checksum.as_bytes()) {
            Some(i) => {
                proof {
                    lemma_amap_get(self.pinned@, i as int);
                    lemma_amap_remove(self.pinned@, i as int);
                }
                let entry = self.pinned.remove(i);
                self.size_pinned = sat_sub_u64(self.size_pinned, entry.1);
                proof {
                    assert(final(self).model() =~~= unpin_model(old(self).model(), checksum@));
                }
                Ok(())
            },
            None => {
                proof {
                    assert(!amap(self.pinned@).contains_key(checksum@));
                    assert(amap(self.pinned@).remove(checksum@) =~= amap(self.pinned@));
                    assert(final(self).model() =~~= unpin_model(old(self).model(), checksum@));
                }
                Ok(())
            },
        }
    }

    /// Statically introspects the module stored under a checksum: whether it
    /// has the reactive entry points, and its required capabilities as a
    /// sorted, comma-joined list.
    #[verifier::loop_isolation(false)]
    pub fn analyze(&self, checksum: &Checksum) -> (r: Result<AnalysisReport, RustError>)
        requires
            self.wf(),
        ensures
            (r matches Ok(rep) ==> {
                let wasm = self.model().fs[checksum@];
                let exports = module_exports(wasm).unwrap();
                &&& load_ok(self.model(), checksum@)
                &&& module_exports(wasm) is Some
                &&& caps_decodable(spec_required_capabilities(exports))
                &&& rep.has_ibc_entry_points == spec_has_reactive_exports(exports)
                &&& exists|s: Seq<Seq<char>>|
                    sorted_strict(s) && (forall|c: Seq<char>|
                        s.contains(c) <==> exists|i: int|
                            0 <= i < spec_required_capabilities(exports).len() && decode_utf8(
                                #[trigger] spec_required_capabilities(exports)[i],
                            ) == c) && rep.required_capabilities@ == Some(
                        vstd::utf8::encode_utf8(csv_join(s)),
                    )
            }),
            (r is Ok <==> analyze_ok(self.model(), checksum@)),
            (r matches Err(e) ==> e matches RustError::VmErr { msg } && ((!load_ok(
                self.model(),
                checksum@,
            ) && msg@ == not_found_msg()) || (load_ok(self.model(), checksum@) && msg@
                == deserialize_msg()))),
    {
        let wasm = match self.load_wasm(checksum) {
            Ok(w) => w,
            Err(e) => {
                return Err(e);
            },
        };
        let exports = match crate::wasm::scan_module_exports(&wasm) {
            None => {
                return Err(RustError::vm_err("Cache error: Wasm bytecode could not be deserialized"));
            },
            Some(exports) => exports,
        };
        let has_ibc = crate::wasm::has_reactive_exports(&exports);
        let req = crate::wasm::required_capabilities(&exports);
        let ghost req_views = spec_required_capabilities(
            module_exports(self.model().fs[checksum@]).unwrap(),
        );
        proof {
            assert(byte_views(req@) == req_views);
        }
        let n = req.len();
        let mut decoded: Vec<String> = Vec::new();
        let mut i: usize = 0;
        while i < n
            invariant
                n == req@.len(),
                byte_views(req@) == req_views,
                0 <= i <= n,
                forall|j: int| 0 <= j < i ==> valid_utf8(#[trigger] req_views[j]),
                forall|a: int, b: int|
                    0 <= a < b < decoded@.len() ==> (#[trigger] decoded@[a])@ != (
                    #[trigger] decoded@[b])@,
                forall|c: Seq<char>|
                    string_views(decoded@).contains(c) <==> exists|j: int|
                        0 <= j < i && decode_utf8(#[trigger] req_views[j]) == c,
            decreases n - i,
        {
            proof {
                assert(req_views[i as int] == req@[i as int]@);
            }
            let s = match string_from_utf8(slice_to_vec(req[i].as_slice())) {
                Ok(s) => s,
                Err(_) => {
                    proof {
                        assert(spec_required_capabilities(
                            module_exports(self.model().fs[checksum@]).unwrap(),
                        )[i as int] == req_views[i as int]);
                        assert(!valid_utf8(
                            spec_required_capabilities(
                                module_exports(self.model().fs[checksum@]).unwrap(),
                            )[i as int],
                        ));
                        assert(!caps_decodable(
                            spec_required_capabilities(
                                module_exports(self.model().fs[checksum@]).unwrap(),
                            ),
                        ));
                    }
                    return Err(
                        RustError::vm_err("Cache error: Wasm bytecode could not be deserialized"),
                    );
                },
            };
            let ghost old_decoded = decoded@;
            let present = crate::text::contains_string(&decoded, &s);
            if !present {
                decoded.push(s);
                proof {
                    assert forall|a: int, b: int|
                        0 <= a < b < decoded@.len() implies (#[trigger] decoded@[a])@ != (
                    #[trigger] decoded@[b])@ by {
                        if b == decoded@.len() - 1 {
                            assert(decoded@[a] == old_decoded[a]);
                            assert(old_decoded[a]@ != s@);
                        }
                    }
                }
            }
            proof {
                assert forall|c: Seq<char>|
                    string_views(decoded@).contains(c) implies (exists|j: int|
                    0 <= j < i + 1 && decode_utf8(#[trigger] req_views[j]) == c) by {
                    let w = choose|w: int|
                        0 <= w < string_views(decoded@).len() && string_views(decoded@)[w] == c;
                    if w < old_decoded.len() {
                        assert(string_views(old_decoded)[w] == c);
                        assert(string_views(old_decoded).contains(c));
                        let j = choose|j: int|
                            0 <= j < i && decode_utf8(#[trigger] req_views[j]) == c;
                        assert(0 <= j < i + 1 && decode_utf8(req_views[j]) == c);
                    } else {
                        assert(c == s@);
                        assert(decode_utf8(req_views[i as int]) == c);
                    }
                }
                assert forall|c: Seq<char>|
                    (exists|j: int| 0 <= j < i + 1 && decode_utf8(#[trigger] req_views[j]) == c)
                        implies string_views(decoded@).contains(c) by {
                    let j = choose|j: int|
                        0 <= j < i + 1 && decode_utf8(#[trigger] req_views[j]) == c;
                    if j < i {
                        assert(string_views(old_decoded).contains(c));
                        let w = choose|w: int|
                            0 <= w < string_views(old_decoded).len() && string_views(old_decoded)[w]
                                == c;
                        assert(string_views(decoded@)[w] == c);
                    } else {
                        assert(c == s@);
                        if present {
                            let w = choose|w: int|
                                0 <= w < old_decoded.len() && (#[trigger] old_decoded[w])@ == s@;
                            assert(string_views(decoded@)[w] == c);
                        } else {
                            assert(string_views(decoded@)[decoded@.len() - 1] == c);
                        }
                    }
                }
            }
            i += 1;
        }
        let sorted = sort_strings(decoded);
        let csv = join_csv(&sorted);
        let report = AnalysisReport {
            has_ibc_entry_points: has_ibc,
            required_capabilities: UnmanagedVector::some(
                crate::text::string_bytes(csv.as_str()),
            ),
        };
        proof {
            assert(sorted_strict(string_views(sorted@)) && (forall|c: Seq<char>|
                string_views(sorted@).contains(c) <==> exists|j: int|
                    0 <= j < req_views.len() && decode_utf8(#[trigger] req_views[j]) == c)
                && report.required_capabilities@ == Some(
                vstd::utf8::encode_utf8(csv_join(string_views(sorted@))),
            ));
        }
        Ok(report)
    }

    /// Reads the cache's metrics: the four counters and the size of the two
    /// memory tiers.
    pub fn metrics(&self) -> (r: Metrics)
        requires
            self.wf(),
        ensures
            r.hits_pinned_memory_cache == self.model().hits_pinned,
            r.hits_memory_cache == self.model().hits_memory,
            r.hits_fs_cache == self.model().hits_fs,
            r.misses == self.model().misses,
            r.elements_pinned_memory_cache == self.model().pinned.len(),
            r.elements_memory_cache == self.model().memory.len(),
            r.size_pinned_memory_cache == self.pinned_size_sum(),
            r.size_memory_cache == self.memory_size_sum(),
    {
        proof {
            lemma_amap_len(self.pinned@);
            lemma_amap_len(self.memory@);
        }
        Metrics {
            hits_pinned_memory_cache: self.hits_pinned_memory_cache,
            hits_memory_cache: self.hits_memory_cache,
            hits_fs_cache: self.hits_fs_cache,
            misses: self.misses,
            elements_pinned_memory_cache: self.pinned.len() as u64,
            elements_memory_cache: self.memory.len() as u64,
            size_pinned_memory_cache: self.size_pinned,
            size_memory_cache: self.size_memory,
        }
    }
}

/// One more hit or miss, held at the maximum.
fn bump_counter(c: u32) -> (r: u32)
    ensures
        r == bump(c),
{
    if c == u32::MAX {
        c
    } else {
        c + 1
    }
}

/// Saturating addition.
pub open spec fn sat_add(a: u64, b: u64) -> u64 {
    if a + b <= u64::MAX {
        (a + b) as u64
    } else {
        u64::MAX
    }
}

/// Saturating subtraction.
pub open spec fn sat_sub(a: u64, b: u64) -> u64 {
    if b <= a {
        (a - b) as u64
    } else {
        0
    }
}

/// What a pin does to the pinned tier's size sum `ps`: a module entering
/// the tier adds its size estimate; nothing else moves it.
pub open spec fn pin_pinned_size(m: CacheModel, cs: Seq<u8>, ps: u64) -> u64 {
    if m.pinned.contains_key(cs) {
        ps
    } else if m.memory.contains_key(cs) {
        sat_add(ps, m.memory[cs])
    } else if m.fs.contains_key(cs) {
        sat_add(ps, m.fs[cs].len() as u64)
    } else {
        ps
    }
}

/// What a pin does to the memory tier's size sum `ms`: a module moving to
/// the pinned tier takes its size estimate along.
pub open spec fn pin_memory_size(m: CacheModel, cs: Seq<u8>, ms: u64) -> u64 {
    if !m.pinned.contains_key(cs) && m.memory.contains_key(cs) {
        sat_sub(ms, m.memory[cs])
    } else {
        ms
    }
}

/// What an unpin does to the pinned tier's size sum `ps`.
pub open spec fn unpin_pinned_size(m: CacheModel, cs: Seq<u8>, ps: u64) -> u64 {
    if m.pinned.contains_key(cs) {
        sat_sub(ps, m.pinned[cs])
    } else {
        ps
    }
}

/// What an instance acquisition does to the memory tier's size sum `ms`: a
/// filesystem hit compiles the module into the tier.
pub open spec fn get_instance_memory_size(m: CacheModel, cs: Seq<u8>, ms: u64) -> u64 {
    if !m.pinned.contains_key(cs) && !m.memory.contains_key(cs) && m.fs.contains_key(cs) {
        sat_add(ms, m.fs[cs].len() as u64)
    } else {
        ms
    }
}

fn sat_add_u64(a: u64, b: u64) -> (r: u64)
    ensures
        r == sat_add(a, b),
{
    if b <= u64::MAX - a {
        a + b
    } else {
        u64::MAX
    }
}

fn sat_sub_u64(a: u64, b: u64) -> (r: u64)
    ensures
        r == sat_sub(a, b),
{
    if b <= a {
        a - b
    } else {
        0
    }
}

/// What static introspection reports about a stored module.
pub struct AnalysisReport {
    pub has_ibc_entry_points: bool,
    /// The required capabilities, UTF-8 encoded, sorted and comma-joined.
    /// Never absent on a successful analysis.
    pub required_capabilities: UnmanagedVector,
}

impl Default for AnalysisReport {
    fn default() -> (r: Self)
        ensures
            !r.has_ibc_entry_points,
            r.required_capabilities@ is None,
    {
        AnalysisReport {
            has_ibc_entry_points: false,
            required_capabilities: UnmanagedVector::none(),
        }
    }
}

/// The cache's counters and tier sizes.
#[derive(Clone, Copy, Debug, PartialEq, Eq, Structural)]
pub struct Metrics {
    pub hits_pinned_memory_cache: u32,
    pub hits_memory_cache: u32,
    pub hits_fs_cache: u32,
    pub misses: u32,
    pub elements_pinned_memory_cache: u64,
    pub elements_memory_cache: u64,
    pub size_pinned_memory_cache: u64,
    pub size_memory_cache: u64,
}

impl Default for Metrics {
    fn default() -> (r: Self)
        ensures
            r.hits_pinned_memory_cache == 0,
            r.hits_memory_cache == 0,
            r.hits_fs_cache == 0,
            r.misses == 0,
            r.elements_pinned_memory_cache == 0,
            r.elements_memory_cache == 0,
            r.size_pinned_memory_cache == 0,
            r.size_memory_cache == 0,
    {
        Metrics {
            hits_pinned_memory_cache: 0,
            hits_memory_cache: 0,
            hits_fs_cache: 0,
            misses: 0,
            elements_pinned_memory_cache: 0,
            elements_memory_cache: 0,
            size_pinned_memory_cache: 0,
            size_memory_cache: 0,
        }
    }
}

/// Sorts a set of distinct strings and joins them with commas, so that the
/// rendering of a capability set is deterministic.
pub fn set_to_csv(set: Vec<String>) -> (r: String)
    requires
        forall|i: int, j: int|
            0 <= i < j < set@.len() ==> (#[trigger] set@[i])@ != (#[trigger] set@[j])@,
    ensures
        exists|s: Seq<Seq<char>>|
            sorted_strict(s) && (forall|c: Seq<char>|
                s.contains(c) <==> string_views(set@).contains(c)) && r@ == csv_join(s),
{
    let sorted = sort_strings(set);
    let r = join_csv(&sorted);
    proof {
        assert(sorted_strict(string_views(sorted@)) && (forall|c: Seq<char>|
            string_views(sorted@).contains(c) <==> string_views(set@).contains(c)) && r@
            == csv_join(string_views(sorted@)));
    }
    r
}


impl cache_t {
    /// Resolves a checksum to a runnable instance bound to the given
    /// backend and budget: the pinned tier is consulted first, then the
    /// unpinned memory tier, then the filesystem tier (which compiles the
    /// module into the memory tier); exactly one counter moves per call, and
    /// a checksum no tier knows is a miss.
    pub fn get_instance<H: StorageVtable + IteratorVtable>(
        &mut self,
        checksum: &Checksum,
        backend: Db<H>,
        gas_limit: u64,
        print_debug: bool,
    ) -> (r: Result<Instance<H>, RustError>)
        requires
            old(self).wf(),
        ensures
            final(self).wf(),
            (r is Ok <==> get_instance_ok(old(self).model(), checksum@)),
            final(self).model() =~~= get_instance_model(old(self).model(), checksum@),
            (r matches Ok(inst) ==> inst.wf() && inst.limit() == gas_limit
                && inst.spec_used_internally() == 0 && inst.spec_used_externally() == 0
                && inst.spec_checksum() == checksum@ && inst.spec_print_debug() == print_debug),
            (r matches Err(e) ==> e matches RustError::VmErr { msg } && msg@ == not_found_msg()),
            final(self).pinned_size_sum() == old(self).pinned_size_sum(),
            final(self).memory_size_sum() == get_instance_memory_size(
                old(self).model(),
                checksum@,
                old(self).memory_size_sum(),
            ),
    {
        proof {
            lemma_amap_contains(self.pinned@, checksum@);
            lemma_amap_contains(self.memory@, checksum@);
            lemma_fs_pairs_contains(self.fs@, checksum@);
        }
        let storage = GoStorage::new(backend);
        match assoc_find(&self.pinned, checksum.as_bytes()) {
            Some(i) => {
                let size = self.pinned[i].1;
                self.hits_pinned_memory_cache = bump_counter(self.hits_pinned_memory_cache);
                proof {
                    assert(final(self).model() =~~= get_instance_model(
                        old(self).model(),
                        checksum@,
                    ));
                }
                return Ok(Instance::new(checksum.duplicate(), size, storage, gas_limit, print_debug));
            },
            None => {},
        }
        match assoc_find(&self.memory, checksum.as_bytes()) {
            Some(i) => {
                let size = self.memory[i].1;
                self.hits_memory_cache = bump_counter(self.hits_memory_cache);
                proof {
                    assert(final(self).model() =~~= get_instance_model(
                        old(self).model(),
                        checksum@,
                    ));
                }
                return Ok(Instance::new(checksum.duplicate(), size, storage, gas_limit, print_debug));
            },
            None => {},
        }
        match assoc_find(&self.fs, checksum.as_bytes()) {
            Some(i) => {
                proof {
                    lemma_fs_pairs_distinct(self.fs@);
                    lemma_amap_get(fs_pairs(self.fs@), i as int);
                }
                let size = self.fs[i].1.len() as u64;
                let ghost old_memory = self.memory@;
                self.memory.push((checksum.to_vec(), size));
                self.hits_fs_cache = bump_counter(self.hits_fs_cache);
                self.size_memory = sat_add_u64(self.size_memory, size);
                proof {
                    lemma_amap_push(old_memory, self.memory@.last().0, self.memory@.last().1);
                    assert(self.memory@ == old_memory.push(self.memory@.last()));
                    assert(final(self).model() =~~= get_instance_model(
                        old(self).model(),
                        checksum@,
                    ));
                }
                return Ok(Instance::new(checksum.duplicate(), size, storage, gas_limit, print_debug));
            },
            None => {},
        }
        self.misses = bump_counter(self.misses);
        proof {
            assert(final(self).model() =~~= get_instance_model(old(self).model(), checksum@));
        }
        Err(RustError::vm_err("Cache error: Error opening Wasm file for reading"))
    }
}

/// Opens a cache from boundary arguments: the data directory and the
/// available capabilities, both as byte views, and the cache sizing.
pub fn do_init_cache(
    data_dir: ByteSliceView,
    available_capabilities: ByteSliceView,
    cache_size: u32,
    instance_memory_limit: u32,
) -> (r: Result<cache_t, RustError>)
    ensures
        (r is Ok <==> (data_dir@ is Some && vstd::utf8::valid_utf8(data_dir@.unwrap())
            && available_capabilities@ is Some && parse_caps(
            split_csv(available_capabilities@.unwrap()),
            Seq::empty(),
        ) is Some)),
        (data_dir@ is None ==> (r matches Err(e) && e matches RustError::UnsetArg { name } && name@
            == "data_dir"@)),
        (data_dir@ is Some && !vstd::utf8::valid_utf8(data_dir@.unwrap()) ==> (r matches Err(e)
            && e is InvalidUtf8)),
        (data_dir@ is Some && vstd::utf8::valid_utf8(data_dir@.unwrap())
            && available_capabilities@ is None ==> (r matches Err(e) && e matches
            RustError::UnsetArg { name } && name@ == "available_capabilities"@)),
        (data_dir@ is Some && vstd::utf8::valid_utf8(data_dir@.unwrap())
            && available_capabilities@ is Some ==> (match parse_caps(
            split_csv(available_capabilities@.unwrap()),
            Seq::empty(),
        ) {
            Option::None => (r matches Err(e) && e is InvalidUtf8),
            Option::Some(caps) => (r matches Ok(c) && c.wf() && c.model() =~~= fresh_model(caps)),
        })),
{
    let dir_bytes = match data_dir.to_owned() {
        None => {
            return Err(RustError::unset_arg("data_dir"));
        },
        Some(b) => b,
    };
    let dir = match string_from_utf8(dir_bytes) {
        Err(e) => {
            return Err(RustError::invalid_utf8_at(e.0, e.1));
        },
        Ok(s) => s,
    };
    let caps_bytes = match available_capabilities.to_owned() {
        None => {
            return Err(RustError::unset_arg("available_capabilities"));
        },
        Some(b) => b,
    };
    let caps = match parse_capabilities(caps_bytes) {
        Err(e) => {
            return Err(e);
        },
        Ok(caps) => caps,
    };
    Ok(cache_t::new(dir, caps, cache_size, instance_memory_limit))
}

/// What the message slot holds after a call failed for a missing argument.
pub open spec fn unset_arg_bytes(name: Seq<char>) -> Option<Seq<u8>> {
    Some(vstd::utf8::encode_utf8("Null/Nil argument: "@ + name))
}

/// What the message slot holds after a call the engine layer refused.
pub open spec fn vm_err_bytes(msg: Seq<char>) -> Option<Seq<u8>> {
    Some(vstd::utf8::encode_utf8("Error calling the VM: "@ + msg))
}

/// The boundary form of cache initialization: the cache object on success,
/// nothing on failure, with the message slot and status filled in.
pub fn init_cache(
    data_dir: ByteSliceView,
    available_capabilities: ByteSliceView,
    cache_size: u32,
    instance_memory_limit: u32,
    error_msg: &mut UnmanagedVector,
) -> (r: (Option<cache_t>, ErrnoValue))
    ensures
        (r.1 is Success <==> r.0 is Some),
        (r.1 is Success <==> (data_dir@ is Some && vstd::utf8::valid_utf8(data_dir@.unwrap())
            && available_capabilities@ is Some && parse_caps(
            split_csv(available_capabilities@.unwrap()),
            Seq::empty(),
        ) is Some)),
        (r.0 matches Some(c) ==> c.wf() && *final(error_msg) == *old(error_msg) && c.model() =~~=
            fresh_model(
            parse_caps(split_csv(available_capabilities@.unwrap()), Seq::empty()).unwrap(),
        )),
        (r.0 is None ==> final(error_msg)@ is Some),
        (data_dir@ is None ==> final(error_msg)@ == unset_arg_bytes("data_dir"@)),
        (data_dir@ is Some && vstd::utf8::valid_utf8(data_dir@.unwrap())
            && available_capabilities@ is None ==> final(error_msg)@ == unset_arg_bytes(
            "available_capabilities"@,
        )),
        (!(r.1 is Success) ==> (exists|m: Seq<char>|
            final(error_msg)@ == Some(vstd::utf8::encode_utf8(m)))),
{
    let res = do_init_cache(data_dir, available_capabilities, cache_size, instance_memory_limit);
    handle_c_error_ptr(res, error_msg)
}

/// Releases a cache. Taking the cache by value, this can be done only once;
/// afterwards the handle is gone for good.
pub fn release_cache(cache: cache_t) {
    let _ = cache;
}

fn do_save_wasm(cache: &mut cache_t, wasm: ByteSliceView, unchecked: bool) -> (r: Result<
    Checksum,
    RustError,
>)
    requires
        old(cache).wf(),
    ensures
        final(cache).wf(),
        (wasm@ is None ==> (r matches Err(e) && e matches RustError::UnsetArg { name } && name@
            == "wasm"@) && final(cache).model() == old(cache).model()),
        (wasm@ is Some ==> {
            &&& (r is Ok <==> save_ok(old(cache).model(), wasm@.unwrap(), unchecked))
            &&& (r matches Ok(c) ==> c@ == sha256_of(wasm@.unwrap()) && c@.len() == 32 && final(cache).model() =~~= save_model(old(cache).model(), wasm@.unwrap()))
            &&& (r is Err ==> final(cache).model() == old(cache).model())
            &&& (r matches Err(e) ==> e matches RustError::VmErr { msg } && msg@ == save_err_msg(
                wasm@.unwrap(),
                old(cache).model().caps,
            ))
        }),
{
    let bytes = match wasm.to_owned() {
        None => {
            return Err(RustError::unset_arg("wasm"));
        },
        Some(b) => b,
    };
    cache.save_wasm(&bytes, unchecked)
}

/// The boundary form of saving module bytes: the checksum's bytes on
/// success, empty bytes on failure, with the message slot and status filled
/// in.
pub fn save_wasm(
    cache: &mut cache_t,
    wasm: ByteSliceView,
    unchecked: bool,
    error_msg: &mut UnmanagedVector,
) -> (r: (UnmanagedVector, ErrnoValue))
    requires
        old(cache).wf(),
    ensures
        final(cache).wf(),
        (r.1 is Success <==> (wasm@ is Some && save_ok(
            old(cache).model(),
            wasm@.unwrap(),
            unchecked,
        ))),
        (r.1 is Success ==> r.0@ == Some(sha256_of(wasm@.unwrap())) && r.0@.unwrap().len() == 32
            && final(cache).model() =~~= save_model(old(cache).model(), wasm@.unwrap()) && *final(error_msg) == *old(error_msg)),
        (!(r.1 is Success) ==> r.0@ == Some(Seq::<u8>::empty()) && final(cache).model() == old(cache).model() && final(error_msg)@ is Some),
        (wasm@ is None ==> final(error_msg)@ == unset_arg_bytes("wasm"@)),
        (wasm@ is Some && !save_ok(old(cache).model(), wasm@.unwrap(), unchecked) ==> final(error_msg)@ == vm_err_bytes(save_err_msg(wasm@.unwrap(), old(cache).model().caps))),
{
    let res = do_save_wasm(cache, wasm, unchecked);
    let mapped: Result<Vec<u8>, RustError> = match res {
        Ok(c) => Ok(c.into_vec()),
        Err(e) => Err(e),
    };
    let (data, status) = handle_c_error_binary(mapped, error_msg);
    (UnmanagedVector::some(data), status)
}

fn do_load_wasm(cache: &cache_t, checksum: ByteSliceView) -> (r: Result<Vec<u8>, RustError>)
    requires
        cache.wf(),
    ensures
        (checksum@ is None ==> (r matches Err(e) && e matches RustError::UnsetArg { name } && name@
            == "checksum"@)),
        (checksum@ is Some && checksum@.unwrap().len() != 32 ==> (r matches Err(e) && e matches
            RustError::VmErr { msg } && msg@ == "Checksum not of length 32"@)),
        (checksum@ is Some && checksum@.unwrap().len() == 32 ==> {
            &&& (r is Ok <==> load_ok(cache.model(), checksum@.unwrap()))
            &&& (r matches Ok(w) ==> w@ == cache.model().fs[checksum@.unwrap()])
            &&& (r is Err ==> (r matches Err(e) && e matches RustError::VmErr { msg } && msg@
                == not_found_msg()))
        }),
{
    let bytes = match checksum.to_owned() {
        None => {
            return Err(RustError::unset_arg("checksum"));
        },
        Some(b) => b,
    };
    let cs = match Checksum::from_vec(bytes) {
        None => {
            return Err(RustError::vm_err("Checksum not of length 32"));
        },
        Some(cs) => cs,
    };
    cache.load_wasm(&cs)
}

/// The boundary form of loading module bytes.
pub fn load_wasm(cache: &cache_t, checksum: ByteSliceView, error_msg: &mut UnmanagedVector) -> (r:
    (UnmanagedVector, ErrnoValue))
    requires
        cache.wf(),
    ensures
        (r.1 is Success <==> (checksum@ is Some && checksum@.unwrap().len() == 32 && load_ok(
            cache.model(),
            checksum@.unwrap(),
        ))),
        (r.1 is Success ==> r.0@ == Some(cache.model().fs[checksum@.unwrap()]) && *final(error_msg)
            == *old(error_msg)),
        (!(r.1 is Success) ==> r.0@ == Some(Seq::<u8>::empty()) && final(error_msg)@ is Some),
        (checksum@ is None ==> final(error_msg)@ == unset_arg_bytes("checksum"@)),
        (checksum@ is Some && checksum@.unwrap().len() != 32 ==> final(error_msg)@ == vm_err_bytes(
            "Checksum not of length 32"@,
        )),
        (checksum@ is Some && checksum@.unwrap().len() == 32 && !load_ok(
            cache.model(),
            checksum@.unwrap(),
        ) ==> final(error_msg)@ == vm_err_bytes(not_found_msg())),
{
    let res = do_load_wasm(cache, checksum);
    let (data, status) = handle_c_error_binary(res, error_msg);
    (UnmanagedVector::some(data), status)
}

fn checksum_arg(checksum: ByteSliceView) -> (r: Result<Checksum, RustError>)
    ensures
        (checksum@ is None ==> (r matches Err(e) && e matches RustError::UnsetArg { name } && name@
            == "checksum"@)),
        (checksum@ is Some && checksum@.unwrap().len() != 32 ==> (r matches Err(e) && e matches
            RustError::VmErr { msg } && msg@ == "Checksum not of length 32"@)),
        (checksum@ is Some && checksum@.unwrap().len() == 32 ==> (r matches Ok(c) && c@
            == checksum@.unwrap())),
{
    let bytes = match checksum.to_owned() {
        None => {
            return Err(RustError::unset_arg("checksum"));
        },
        Some(b) => b,
    };
    match Checksum::from_vec(bytes) {
        None => Err(RustError::vm_err("Checksum not of length 32")),
        Some(cs) => Ok(cs),
    }
}

/// The boundary form of removing a module.
pub fn remove_wasm(cache: &mut cache_t, checksum: ByteSliceView, error_msg: &mut UnmanagedVector)
    -> (r: ErrnoValue)
    requires
        old(cache).wf(),
    ensures
        final(cache).wf(),
        (r is Success <==> (checksum@ is Some && checksum@.unwrap().len() == 32 && remove_ok(
            old(cache).model(),
            checksum@.unwrap(),
        ))),
        (r is Success ==> final(cache).model() =~~= remove_model(
            old(cache).model(),
            checksum@.unwrap(),
        ) && *final(error_msg) == *old(error_msg)),
        (!(r is Success) ==> final(cache).model() == old(cache).model() && final(error_msg)@
            is Some),
        (checksum@ is None ==> final(error_msg)@ == unset_arg_bytes("checksum"@)),
        (checksum@ is Some && checksum@.unwrap().len() != 32 ==> final(error_msg)@ == vm_err_bytes(
            "Checksum not of length 32"@,
        )),
        (checksum@ is Some && checksum@.unwrap().len() == 32 && !remove_ok(
            old(cache).model(),
            checksum@.unwrap(),
        ) ==> final(error_msg)@ == vm_err_bytes(remove_missing_msg())),
{
    let res: Result<(), RustError> = match checksum_arg(checksum) {
        Err(e) => Err(e),
        Ok(cs) => cache.remove_wasm(&cs),
    };
    let (_, status) = handle_c_error_default(res, error_msg);
    status
}

/// The boundary form of pinning a module.
pub fn pin(cache: &mut cache_t, checksum: ByteSliceView, error_msg: &mut UnmanagedVector) -> (r:
    ErrnoValue)
    requires
        old(cache).wf(),
    ensures
        final(cache).wf(),
        (r is Success <==> (checksum@ is Some && checksum@.unwrap().len() == 32 && pin_ok(
            old(cache).model(),
            checksum@.unwrap(),
        ))),
        (checksum@ is Some && checksum@.unwrap().len() == 32 ==> final(cache).model() =~~=
            pin_model(old(cache).model(), checksum@.unwrap())),
        (!(checksum@ is Some && checksum@.unwrap().len() == 32) ==> final(cache).model() == old(cache).model()),
        (r is Success ==> *final(error_msg) == *old(error_msg)),
        (!(r is Success) ==> final(error_msg)@ is Some),
        (checksum@ is None ==> final(error_msg)@ == unset_arg_bytes("checksum"@)),
        (checksum@ is Some && checksum@.unwrap().len() != 32 ==> final(error_msg)@ == vm_err_bytes(
            "Checksum not of length 32"@,
        )),
        (checksum@ is Some && checksum@.unwrap().len() == 32 && !pin_ok(
            old(cache).model(),
            checksum@.unwrap(),
        ) ==> final(error_msg)@ == vm_err_bytes(not_found_msg())),
{
    let res: Result<(), RustError> = match checksum_arg(checksum) {
        Err(e) => Err(e),
        Ok(cs) => cache.pin(&cs),
    };
    let (_, status) = handle_c_error_default(res, error_msg);
    status
}

/// The boundary form of unpinning a module.
pub fn unpin(cache: &mut cache_t, checksum: ByteSliceView, error_msg: &mut UnmanagedVector) -> (r:
    ErrnoValue)
    requires
        old(cache).wf(),
    ensures
        final(cache).wf(),
        (r is Success <==> (checksum@ is Some && checksum@.unwrap().len() == 32)),
        (r is Success ==> final(cache).model() =~~= unpin_model(
            old(cache).model(),
            checksum@.unwrap(),
        ) && *final(error_msg) == *old(error_msg)),
        (!(r is Success) ==> final(cache).model() == old(cache).model() && final(error_msg)@
            is Some),
        (checksum@ is None ==> final(error_msg)@ == unset_arg_bytes("checksum"@)),
        (checksum@ is Some && checksum@.unwrap().len() != 32 ==> final(error_msg)@ == vm_err_bytes(
            "Checksum not of length 32"@,
        )),
{
    let res: Result<(), RustError> = match checksum_arg(checksum) {
        Err(e) => Err(e),
        Ok(cs) => cache.unpin(&cs),
    };
    let (_, status) = handle_c_error_default(res, error_msg);
    status
}

fn do_analyze_code(cache: &cache_t, checksum: ByteSliceView) -> (r: Result<
    AnalysisReport,
    RustError,
>)
    requires
        cache.wf(),
    ensures
        (r is Ok <==> (checksum@ is Some && checksum@.unwrap().len() == 32 && analyze_ok(
            cache.model(),
            checksum@.unwrap(),
        ))),
        (checksum@ is None ==> (r matches Err(e) && e matches RustError::UnsetArg { name } && name@
            == "checksum"@)),
        (checksum@ is Some && checksum@.unwrap().len() != 32 ==> (r matches Err(e) && e matches
            RustError::VmErr { msg } && msg@ == "Checksum not of length 32"@)),
        (checksum@ is Some && checksum@.unwrap().len() == 32 && !load_ok(
            cache.model(),
            checksum@.unwrap(),
        ) ==> (r matches Err(e) && e matches RustError::VmErr { msg } && msg@ == not_found_msg())),
        (checksum@ is Some && checksum@.unwrap().len() == 32 && load_ok(
            cache.model(),
            checksum@.unwrap(),
        ) && !analyze_ok(cache.model(), checksum@.unwrap()) ==> (r matches Err(e) && e matches
            RustError::VmErr { msg } && msg@ == deserialize_msg())),
        (checksum@ is Some && checksum@.unwrap().len() == 32 && r is Ok ==> {
            let rep = r.unwrap();
            let wasm = cache.model().fs[checksum@.unwrap()];
            let exports = module_exports(wasm).unwrap();
            &&& load_ok(cache.model(), checksum@.unwrap())
            &&& module_exports(wasm) is Some
            &&& rep.has_ibc_entry_points == spec_has_reactive_exports(exports)
            &&& exists|s: Seq<Seq<char>>|
                sorted_strict(s) && (forall|c: Seq<char>|
                    s.contains(c) <==> exists|i: int|
                        0 <= i < spec_required_capabilities(exports).len() && decode_utf8(
                            #[trigger] spec_required_capabilities(exports)[i],
                        ) == c) && rep.required_capabilities@ == Some(
                    vstd::utf8::encode_utf8(csv_join(s)),
                )
        }),
{
    let cs = match checksum_arg(checksum) {
        Err(e) => {
            return Err(e);
        },
        Ok(cs) => cs,
    };
    cache.analyze(&cs)
}

/// The boundary form of static module introspection.
pub fn analyze_code(cache: &cache_t, checksum: ByteSliceView, error_msg: &mut UnmanagedVector)
    -> (r: (AnalysisReport, ErrnoValue))
    requires
        cache.wf(),
    ensures
        (r.1 is Success <==> (checksum@ is Some && checksum@.unwrap().len() == 32 && analyze_ok(
            cache.model(),
            checksum@.unwrap(),
        ))),
        (r.1 is Success ==> *final(error_msg) == *old(error_msg)),
        (!(r.1 is Success) ==> final(error_msg)@ is Some),
        (checksum@ is None ==> final(error_msg)@ == unset_arg_bytes("checksum"@)),
        (checksum@ is Some && checksum@.unwrap().len() != 32 ==> final(error_msg)@ == vm_err_bytes(
            "Checksum not of length 32"@,
        )),
        (checksum@ is Some && checksum@.unwrap().len() == 32 && !load_ok(
            cache.model(),
            checksum@.unwrap(),
        ) ==> final(error_msg)@ == vm_err_bytes(not_found_msg())),
        (checksum@ is Some && checksum@.unwrap().len() == 32 && load_ok(
            cache.model(),
            checksum@.unwrap(),
        ) && !analyze_ok(cache.model(), checksum@.unwrap()) ==> final(error_msg)@ == vm_err_bytes(
            deserialize_msg(),
        )),
        (checksum@ is Some && checksum@.unwrap().len() == 32 && r.1 is Success ==> {
            let wasm = cache.model().fs[checksum@.unwrap()];
            let exports = module_exports(wasm).unwrap();
            &&& load_ok(cache.model(), checksum@.unwrap())
            &&& module_exports(wasm) is Some
            &&& r.0.has_ibc_entry_points == spec_has_reactive_exports(exports)
            &&& exists|s: Seq<Seq<char>>|
                sorted_strict(s) && (forall|c: Seq<char>|
                    s.contains(c) <==> exists|i: int|
                        0 <= i < spec_required_capabilities(exports).len() && decode_utf8(
                            #[trigger] spec_required_capabilities(exports)[i],
                        ) == c) && r.0.required_capabilities@ == Some(
                    vstd::utf8::encode_utf8(csv_join(s)),
                )
        }),
{
    let res = do_analyze_code(cache, checksum);
    handle_c_error_default(res, error_msg)
}

/// The boundary form of reading the cache's metrics; this never fails.
pub fn get_metrics(cache: &cache_t, error_msg: &mut UnmanagedVector) -> (r: (Metrics, ErrnoValue))
    requires
        cache.wf(),
    ensures
        r.1 is Success,
        *final(error_msg) == *old(error_msg),
        r.0.hits_pinned_memory_cache == cache.model().hits_pinned,
        r.0.hits_memory_cache == cache.model().hits_memory,
        r.0.hits_fs_cache == cache.model().hits_fs,
        r.0.misses == cache.model().misses,
        r.0.elements_pinned_memory_cache == cache.model().pinned.len(),
        r.0.elements_memory_cache == cache.model().memory.len(),
        r.0.size_pinned_memory_cache == cache.pinned_size_sum(),
        r.0.size_memory_cache == cache.memory_size_sum(),
{
    let res: Result<Metrics, RustError> = Ok(cache.metrics());
    handle_c_error_default(res, error_msg)
}

// ------------------------------------------------------------------
// Laws of the cache's abstract state.
// ------------------------------------------------------------------
/// Saving the same bytes twice yields the identical checksum both times,
/// the second save succeeds exactly as the first did, and leaves the cache
/// as the first save left it.
pub proof fn lemma_save_idempotent(m: CacheModel, wasm: Seq<u8>, unchecked: bool)
    ensures
        save_ok(save_model(m, wasm), wasm, unchecked) == save_ok(m, wasm, unchecked),
        save_model(save_model(m, wasm), wasm) =~~= save_model(m, wasm),
{
}

/// After a successful removal, loading the same checksum fails, and so does
/// removing it again.
pub proof fn lemma_remove_then_load_fails(m: CacheModel, cs: Seq<u8>)
    requires
        remove_ok(m, cs),
    ensures
        !load_ok(remove_model(m, cs), cs),
        !remove_ok(remove_model(m, cs), cs),
{
}

/// Pinning twice is pinning once, and unpinning an unpinned checksum
/// changes nothing.
pub proof fn lemma_pin_unpin_idempotent(m: CacheModel, cs: Seq<u8>, ps: u64)
    ensures
        pin_model(pin_model(m, cs), cs) =~~= pin_model(m, cs),
        pin_pinned_size(pin_model(m, cs), cs, pin_pinned_size(m, cs, ps)) == pin_pinned_size(
            m,
            cs,
            ps,
        ),
        !m.pinned.contains_key(cs) ==> unpin_model(m, cs) =~~= m && unpin_pinned_size(m, cs, ps)
            == ps,
{
    assert(unpin_model(m, cs).pinned =~= (if m.pinned.contains_key(cs) {
        m.pinned.remove(cs)
    } else {
        m.pinned
    }));
}

/// Whether no counter of `a` exceeds the corresponding counter of `b`.
pub open spec fn counters_le(a: CacheModel, b: CacheModel) -> bool {
    &&& a.hits_pinned <= b.hits_pinned
    &&& a.hits_memory <= b.hits_memory
    &&& a.hits_fs <= b.hits_fs
    &&& a.misses <= b.misses
}

/// Hit and miss counters never decrease: every operation of the cache
/// leaves each counter at least where it was. An acquisition of a checksum
/// no tier knows is exactly one more miss, as long as the counter has not
/// reached the machine's ceiling, where it holds.
pub proof fn lemma_counters_monotone(m: CacheModel, cs: Seq<u8>, wasm: Seq<u8>)
    ensures
        counters_le(m, save_model(m, wasm)),
        counters_le(m, remove_model(m, cs)),
        counters_le(m, pin_model(m, cs)),
        counters_le(m, unpin_model(m, cs)),
        counters_le(m, get_instance_model(m, cs)),
        (!pin_ok(m, cs) && m.misses < u32::MAX) ==> get_instance_model(m, cs).misses == m.misses
            + 1,
{
}

/// A fresh cache reads all-zero metrics; after a save and a pin, acquiring
/// an instance of that checksum is a pinned hit and moves no other counter;
/// acquiring a never-saved checksum is a miss.
pub proof fn lemma_metrics_classification(caps: Seq<Seq<char>>, m: CacheModel, wasm: Seq<u8>)
    ensures
        fresh_model(caps).hits_pinned == 0 && fresh_model(caps).hits_memory == 0 && fresh_model(
            caps,
        ).hits_fs == 0 && fresh_model(caps).misses == 0,
        ({
            let pinned = pin_model(save_model(m, wasm), sha256_of(wasm));
            let after = get_instance_model(pinned, sha256_of(wasm));
            &&& get_instance_ok(pinned, sha256_of(wasm))
            &&& after.hits_pinned == bump(pinned.hits_pinned)
            &&& after.hits_memory == pinned.hits_memory
            &&& after.hits_fs == pinned.hits_fs
            &&& after.misses == pinned.misses
        }),
        (forall|cs: Seq<u8>|
            !pin_ok(m, cs) ==> !get_instance_ok(m, cs) && (#[trigger] get_instance_model(
                m,
                cs,
            )).misses == bump(m.misses) && get_instance_model(m, cs).hits_pinned == m.hits_pinned
                && get_instance_model(m, cs).hits_memory == m.hits_memory && get_instance_model(
                m,
                cs,
            ).hits_fs == m.hits_fs),
{
}

} // verus!
