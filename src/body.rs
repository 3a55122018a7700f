//! Request and response bodies: a stream of frames that can be dumped into
//! one buffer, with the extension bag riding along.
use vstd::prelude::*;

use crate::reflect::Reflect;
use crate::text::copy_bytes;

verus! {

/// The concatenation of `frames`.
pub open spec fn flatten(frames: Seq<Seq<u8>>) -> Seq<u8>
    decreases frames.len(),
{
    if frames.len() == 0 {
        Seq::empty()
    } else {
        flatten(frames.drop_last()) + frames.last()
    }
}

proof fn lemma_flatten_single(fs: Seq<Seq<u8>>)
    requires
        fs.len() == 1,
    ensures
        flatten(fs) == fs[0],
{
    assert(fs.drop_last() =~= Seq::<Seq<u8>>::empty());
    assert(flatten(fs.drop_last()) == Seq::<u8>::empty());
    assert(flatten(fs) =~= fs[0]);
}

/// What a body is: the bytes its stream yields, the dumped buffer if any,
/// whether the stream ends in an error, and its extensions.
pub struct BodyView {
    pub content: Seq<u8>,
    pub dumped: Option<Seq<u8>>,
    pub failed: bool,
    pub extensions: Map<Seq<char>, Seq<char>>,
}

/// The body that a successful dump yields.
pub open spec fn dump_of(b: BodyView) -> BodyView {
    BodyView { content: b.content, dumped: Some(b.content), failed: false, extensions: b.extensions }
}

/// Dumping twice gives what dumping once gives, byte for byte, and the
/// dumped buffer is the content of the stream.
pub proof fn lemma_dump_idempotent(b: BodyView)
    ensures
        dump_of(dump_of(b)) == dump_of(b),
        dump_of(b).dumped == Some(b.content),
        dump_of(b).extensions == b.extensions,
{
}

/// The stream failed before its end.
pub struct SgBodyError;

pub struct SgBody {
    frames: Vec<Vec<u8>>,
    failed: bool,
    dump: Option<Vec<u8>>,
    reflect: Reflect,
}

pub open spec fn frame_views(frames: Seq<Vec<u8>>) -> Seq<Seq<u8>> {
    frames.map_values(|f: Vec<u8>| f@)
}

fn concat_frames(frames: &Vec<Vec<u8>>) -> (r: Vec<u8>)
    ensures
        r@ == flatten(frame_views(frames@)),
{
    let ghost fv = frame_views(frames@);
    let mut out: Vec<u8> = Vec::new();
    let n = frames.len();
    let mut i: usize = 0;
    while i < n
        invariant
            n == frames@.len(),
            fv == frame_views(frames@),
            i <= n,
            out@ == flatten(fv.subrange(0, i as int)),
        decreases n - i,
    {
        let f = &frames[i];
        let m = f.len();
        let mut j: usize = 0;
        let ghost base = out@;
        while j < m
            invariant
                m == f@.len(),
                j <= m,
                out@ == base + f@.subrange(0, j as int),
            decreases m - j,
        {
            out.push(f[j]);
            j += 1;
            assert(out@ =~= base + f@.subrange(0, j as int));
        }
        proof {
            assert(f@.subrange(0, m as int) =~= f@);
            assert(fv.subrange(0, i + 1).drop_last() =~= fv.subrange(0, i as int));
            assert(fv.subrange(0, i + 1).last() == fv[i as int]);
        }
        i += 1;
    }
    assert(fv.subrange(0, n as int) =~= fv);
    out
}

impl SgBody {
    pub closed spec fn view(&self) -> BodyView {
        BodyView {
            content: flatten(frame_views(self.frames@)),
            dumped: match self.dump {
                Some(d) => Some(d@),
                None => None,
            },
            failed: self.failed,
            extensions: self.reflect@,
        }
    }

    pub closed spec fn wf(&self) -> bool {
        &&& self.reflect.wf()
        &&& self.dump matches Some(d) ==> {
            &&& !self.failed
            &&& flatten(frame_views(self.frames@)) == d@
        }
    }

    /// A streaming body: `frames`, then an error if `failed`.
    pub fn new(frames: Vec<Vec<u8>>, failed: bool) -> (r: Self)
        ensures
            r.wf(),
            r@.content == flatten(frame_views(frames@)),
            r@.dumped.is_none(),
            r@.failed == failed,
            r@.extensions == Map::<Seq<char>, Seq<char>>::empty(),
    {
        SgBody { frames, failed, dump: None, reflect: Reflect::new() }
    }

    /// A body with no bytes.
    pub fn empty() -> (r: Self)
        ensures
            r.wf(),
            r@.content == Seq::<u8>::empty(),
            r@.dumped.is_none(),
            !r@.failed,
            r@.extensions == Map::<Seq<char>, Seq<char>>::empty(),
    {
        let r = SgBody { frames: Vec::new(), failed: false, dump: None, reflect: Reflect::new() };
        assert(frame_views(r.frames@) =~= Seq::<Seq<u8>>::empty());
        r
    }

    /// A body that holds `data`, already dumped.
    pub fn full(data: Vec<u8>) -> (r: Self)
        ensures
            r.wf(),
            r@.content == data@,
            r@.dumped == Some(data@),
            !r@.failed,
            r@.extensions == Map::<Seq<char>, Seq<char>>::empty(),
    {
        let copy = copy_bytes(&data);
        let mut frames: Vec<Vec<u8>> = Vec::new();
        frames.push(data);
        let r = SgBody { frames, failed: false, dump: Some(copy), reflect: Reflect::new() };
        proof {
            let fv = frame_views(r.frames@);
            lemma_flatten_single(fv);
            assert(fv[0] == r.frames@[0]@);
        }
        r
    }

    pub fn is_dumped(&self) -> (r: bool)
        ensures
            r == self@.dumped.is_some(),
    {
        self.dump.is_some()
    }

    /// The dumped bytes, if the body was dumped.
    pub fn dumped_bytes(&self) -> (r: Option<Vec<u8>>)
        ensures
            match r {
                Some(b) => self@.dumped == Some(b@),
                None => self@.dumped.is_none(),
            },
    {
        match &self.dump {
            Some(d) => Some(copy_bytes(d)),
            None => None,
        }
    }

    /// Reads the whole stream into one buffer; the extensions stay.
    pub fn dump(self) -> (r: Result<SgBody, SgBodyError>)
        requires
            self.wf(),
        ensures
            r.is_ok() == !self@.failed,
            r matches Ok(b) ==> b.wf() && b@ == dump_of(self@),
    {
        if self.failed {
            return Err(SgBodyError);
        }
        let bytes = concat_frames(&self.frames);
        let copy = copy_bytes(&bytes);
        let mut frames: Vec<Vec<u8>> = Vec::new();
        frames.push(bytes);
        let r = SgBody { frames, failed: false, dump: Some(copy), reflect: self.reflect };
        proof {
            let fv = frame_views(r.frames@);
            lemma_flatten_single(fv);
            assert(fv[0] == r.frames@[0]@);
        }
        Ok(r)
    }

    /// A fresh body over the same buffer, if this one was dumped.
    pub fn dump_clone(&self) -> (r: Option<SgBody>)
        requires
            self.wf(),
        ensures
            r.is_some() == self@.dumped.is_some(),
            r matches Some(b) ==> b.wf() && b@ == self@,
    {
        match &self.dump {
            Some(d) => {
                let bytes = copy_bytes(d);
                let copy = copy_bytes(d);
                let mut frames: Vec<Vec<u8>> = Vec::new();
                frames.push(bytes);
                let r = SgBody { frames, failed: false, dump: Some(copy), reflect: self.reflect.duplicate() };
                proof {
                    let fv = frame_views(r.frames@);
                    lemma_flatten_single(fv);
                    assert(fv[0] == r.frames@[0]@);
                }
                Some(r)
            },
            None => None,
        }
    }

    /// A copy of a dumped body; an undumped stream cannot be copied.
    pub fn clone_dumped(&self) -> (r: SgBody)
        requires
            self.wf(),
            self@.dumped.is_some(),
        ensures
            r.wf(),
            r@ == self@,
    {
        match self.dump_clone() {
            Some(b) => b,
            None => SgBody::empty(),
        }
    }

    /// The value of extension `key`.
    pub fn extension(&self, key: &str) -> (r: Option<String>)
        requires
            self.wf(),
        ensures
            match r {
                Some(v) => self@.extensions.contains_key(key@) && self@.extensions[key@] == v@,
                None => !self@.extensions.contains_key(key@),
            },
    {
        self.reflect.get(key)
    }

    /// Sets extension `key` to `value`.
    pub fn insert_extension(&mut self, key: String, value: String)
        requires
            old(self).wf(),
        ensures
            final(self).wf(),
            final(self)@ == (BodyView { extensions: old(self)@.extensions.insert(key@, value@), ..old(self)@ }),
    {
        self.reflect.insert(key, value);
    }

    /// A copy of the extension bag.
    pub fn reflect(&self) -> (r: Reflect)
        requires
            self.wf(),
        ensures
            r.wf(),
            r@ == self@.extensions,
    {
        self.reflect.duplicate()
    }

    /// Replaces the extension bag.
    pub fn with_reflect(self, reflect: Reflect) -> (r: SgBody)
        requires
            self.wf(),
            reflect.wf(),
        ensures
            r.wf(),
            r@ == (BodyView { extensions: reflect@, ..self@ }),
    {
        SgBody { reflect, ..self }
    }
}

} // verus!

verus! {

pub open spec fn peer_addr_key() -> Seq<char> {
    "peer_addr"@
}

/// Prepares an incoming body: a fresh extension bag holding the peer's
/// address.
pub fn install_peer(body: SgBody, peer: String) -> (r: SgBody)
    requires
        body.wf(),
    ensures
        r.wf(),
        r@.content == body@.content,
        r@.dumped == body@.dumped,
        r@.failed == body@.failed,
        r@.extensions == Map::<Seq<char>, Seq<char>>::empty().insert(peer_addr_key(), peer@),
{
    let mut reflect = Reflect::new();
    reflect.insert(String::from_str("peer_addr"), peer);
    body.with_reflect(reflect)
}

} // verus!
