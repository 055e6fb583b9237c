//! The payload model: the typed value that travels between nodes — a JSON
//! tree, opaque bytes, or an error message — and its conversions to and
//! from the host's header-pair and body-byte forms.

use vstd::prelude::*;

use crate::json::{
    clone_value, header_shape, json_object, json_string, json_to_bytes, json_wf, object_entries,
    parse_json, HeaderShape, HeaderShapeV,
};
use crate::strutil::{ascii_lower, spec_lower_seq, spec_utf8_len, str_byte_len, str_eq, utf8_of, utf8_ok, utf8_to_string};
use vstd::pervasive::VecAdditionalExecFns;

verus! {

pub enum Payload {
    Raw(Vec<u8>),
    Json(serde_json::Value),
    Error(String),
}

/// The mathematical value of a payload; the JSON tree stays opaque.
pub enum PayloadV {
    Raw(Seq<u8>),
    Json(serde_json::Value),
    Error(Seq<char>),
}

impl View for Payload {
    type V = PayloadV;

    open spec fn view(&self) -> PayloadV {
        match self {
            Payload::Raw(b) => PayloadV::Raw(b@),
            Payload::Json(v) => PayloadV::Json(*v),
            Payload::Error(e) => PayloadV::Error(e@),
        }
    }
}

impl DeepView for Payload {
    type V = PayloadV;

    open spec fn deep_view(&self) -> PayloadV {
        self@
    }
}

impl Payload {
    /// The content type a payload declares: only a JSON tree has one.
    pub fn content_type(&self) -> (r: Option<&str>)
        ensures
            match self@ {
                PayloadV::Json(_) => r matches Some(ct) && ct@ == "application/json"@,
                _ => r is None,
            },
    {
        match self {
            Payload::Json(_) => Some("application/json"),
            _ => None,
        }
    }

    /// Interpret bytes under a declared content type: JSON is parsed (a
    /// parse error becomes an error payload), anything else is kept raw,
    /// and an absent content type means the caller chose not to interpret.
    pub fn from_bytes(bytes: Vec<u8>, content_type: Option<&str>) -> (r: Option<Payload>)
        ensures
            match content_type {
                None => r is None,
                Some(ct) => if ct@ == "application/json"@ {
                    r matches Some(p) && (json_wf(bytes@) ==> p@ is Json) && (!json_wf(bytes@)
                        ==> p@ is Error)
                } else {
                    r matches Some(p) && p@ == PayloadV::Raw(bytes@)
                },
            },
    {
        match content_type {
            Some(ct) => {
                if str_eq(ct, "application/json") {
                    match parse_json(bytes.as_slice()) {
                        Ok(v) => Some(Payload::Json(v)),
                        Err(e) => Some(Payload::Error(e)),
                    }
                } else {
                    Some(Payload::Raw(bytes))
                }
            },
            None => None,
        }
    }

    /// The payload as a JSON tree: a JSON payload is returned as it is;
    /// raw bytes become a JSON string when they are valid UTF-8; an error
    /// payload fails with its message.
    pub fn to_json(&self) -> (r: Result<serde_json::Value, String>)
        ensures
            self@ matches PayloadV::Json(v) ==> r matches Ok(u) && u == v,
            match self@ {
                PayloadV::Raw(b) => (utf8_ok(b) ==> r == Ok::<serde_json::Value, String>(
                    crate::json::json_str_of(utf8_of(b)),
                )) && (!utf8_ok(b) ==> r is Err),
                _ => true,
            },
            self@ matches PayloadV::Error(e) ==> r matches Err(m) && m@ == e,
    {
        match self {
            Payload::Json(v) => Ok(clone_value(v)),
            Payload::Raw(bytes) => match utf8_to_string(bytes.as_slice()) {
                Ok(s) => Ok(json_string(s)),
                Err(e) => Err(e),
            },
            Payload::Error(e) => Err(e.clone()),
        }
    }

    /// The payload as bytes: a JSON tree is serialized compactly, raw
    /// bytes are cloned, an error payload fails with its message.
    pub fn to_bytes(&self) -> (r: Result<Vec<u8>, String>)
        ensures
            self@ matches PayloadV::Raw(b) ==> r matches Ok(v) && v@ == b,
            self@ matches PayloadV::Error(e) ==> r matches Err(m) && m@ == e,
            self@ is Json ==> r is Ok,
    {
        match self {
            Payload::Json(v) => json_to_bytes(v),
            Payload::Raw(bytes) => {
                let r = bytes.clone();
                proof {
                    assert(r@ =~~= bytes@);
                }
                Ok(r)
            },
            Payload::Error(e) => Err(e.clone()),
        }
    }

    /// The byte length, where it is known without serializing: defined
    /// for raw bytes and error messages, not for a JSON tree.
    pub fn len(&self) -> (r: Option<usize>)
        ensures
            match self@ {
                PayloadV::Raw(b) => r matches Some(n) && n == b.len(),
                PayloadV::Error(e) => r matches Some(n) && n == spec_utf8_len(e),
                PayloadV::Json(_) => r is None,
            },
    {
        match self {
            Payload::Json(_) => None,
            Payload::Raw(b) => Some(b.len()),
            Payload::Error(e) => Some(str_byte_len(e.as_str())),
        }
    }
}

/// One header's value inside a header document: a single value, or the
/// ordered values of a repeated header.
pub enum HeaderValue {
    One(String),
    Many(Vec<String>),
}

/// The mathematical value of a header value.
#[verifier::ext_equal]
pub enum HeaderValueV {
    One(Seq<char>),
    Many(Seq<Seq<char>>),
}

impl View for HeaderValue {
    type V = HeaderValueV;

    open spec fn view(&self) -> HeaderValueV {
        match self {
            HeaderValue::One(s) => HeaderValueV::One(s@),
            HeaderValue::Many(vs) => HeaderValueV::Many(vs.deep_view()),
        }
    }
}

impl DeepView for HeaderValue {
    type V = HeaderValueV;

    open spec fn deep_view(&self) -> HeaderValueV {
        self@
    }
}

/// What grouping does to one incoming header pair: the name is lowercased;
/// a first occurrence is appended as a single value; a repeat turns the
/// entry into the ordered list of its values.
pub open spec fn spec_group_step(
    acc: Seq<(Seq<char>, HeaderValueV)>,
    name: Seq<char>,
    value: Seq<char>,
) -> Seq<(Seq<char>, HeaderValueV)> {
    let k = spec_lower_seq(name);
    if exists|i: int| 0 <= i < acc.len() && acc[i].0 == k {
        let i = choose|i: int| 0 <= i < acc.len() && acc[i].0 == k;
        let upgraded = match acc[i].1 {
            HeaderValueV::One(s) => HeaderValueV::Many(seq![s, value]),
            HeaderValueV::Many(vs) => HeaderValueV::Many(vs.push(value)),
        };
        acc.update(i, (k, upgraded))
    } else {
        acc.push((k, HeaderValueV::One(value)))
    }
}

/// Grouping a whole pair list, left to right.
pub open spec fn spec_group(pairs: Seq<(Seq<char>, Seq<char>)>) -> Seq<(Seq<char>, HeaderValueV)>
    decreases pairs.len(),
{
    if pairs.len() == 0 {
        Seq::empty()
    } else {
        spec_group_step(spec_group(pairs.drop_last()), pairs.last().0, pairs.last().1)
    }
}

/// No name occurs twice among a document's entries.
pub open spec fn spec_doc_keys_distinct(doc: Seq<(Seq<char>, HeaderValueV)>) -> bool {
    forall|i: int, j: int| 0 <= i < j < doc.len() ==> doc[i].0 != doc[j].0
}

proof fn lemma_group_step_distinct(
    acc: Seq<(Seq<char>, HeaderValueV)>,
    name: Seq<char>,
    value: Seq<char>,
)
    requires
        spec_doc_keys_distinct(acc),
    ensures
        spec_doc_keys_distinct(spec_group_step(acc, name, value)),
{
    let k = spec_lower_seq(name);
    let r = spec_group_step(acc, name, value);
    if exists|i: int| 0 <= i < acc.len() && acc[i].0 == k {
        let i = choose|i: int| 0 <= i < acc.len() && acc[i].0 == k;
        assert(forall|j: int| 0 <= j < acc.len() ==> r[j].0 == acc[j].0);
    }
}

/// Grouping never yields a repeated name.
pub proof fn lemma_group_distinct(pairs: Seq<(Seq<char>, Seq<char>)>)
    ensures
        spec_doc_keys_distinct(spec_group(pairs)),
    decreases pairs.len(),
{
    if pairs.len() > 0 {
        lemma_group_distinct(pairs.drop_last());
        lemma_group_step_distinct(spec_group(pairs.drop_last()), pairs.last().0, pairs.last().1);
    }
}

/// The header pairs a document stands for, entry by entry, in order.
pub open spec fn spec_flatten(doc: Seq<(Seq<char>, HeaderValueV)>) -> Seq<(Seq<char>, Seq<char>)>
    decreases doc.len(),
{
    if doc.len() == 0 {
        Seq::empty()
    } else {
        spec_flatten(doc.drop_last()) + (match doc.last().1 {
            HeaderValueV::One(s) => seq![(doc.last().0, s)],
            HeaderValueV::Many(vs) => Seq::new(vs.len(), |i: int| (doc.last().0, vs[i])),
        })
    }
}

/// Whether some entry of the document holds `k`.
pub open spec fn spec_doc_has_key(doc: Seq<(Seq<char>, HeaderValueV)>, k: Seq<char>) -> bool {
    exists|i: int| 0 <= i < doc.len() && doc[i].0 == k
}

/// The canonical form that grouping produces: no name repeats, every name
/// is already ASCII-lowercase, and a list value holds at least two
/// entries.
/// Names as grouping leaves them: no repeats, all ASCII-lowercase.
pub open spec fn spec_doc_names_canonical(doc: Seq<(Seq<char>, HeaderValueV)>) -> bool {
    &&& spec_doc_keys_distinct(doc)
    &&& forall|i: int| 0 <= i < doc.len() ==> spec_lower_seq(#[trigger] doc[i].0) == doc[i].0
}

pub open spec fn spec_doc_wf(doc: Seq<(Seq<char>, HeaderValueV)>) -> bool {
    &&& spec_doc_names_canonical(doc)
    &&& forall|i: int|
        0 <= i < doc.len() ==> (#[trigger] doc[i].1 matches HeaderValueV::Many(vs) ==> vs.len()
            >= 2)
}

/// The document grouping rebuilds from a flattened one: an empty value
/// list vanishes (it stood for no header entry), a singleton list becomes
/// a single value, everything else is kept.
pub open spec fn spec_normalize(doc: Seq<(Seq<char>, HeaderValueV)>) -> Seq<
    (Seq<char>, HeaderValueV),
>
    decreases doc.len(),
{
    if doc.len() == 0 {
        Seq::empty()
    } else {
        let front = spec_normalize(doc.drop_last());
        match doc.last().1 {
            HeaderValueV::One(s) => front.push((doc.last().0, HeaderValueV::One(s))),
            HeaderValueV::Many(vs) => if vs.len() == 0 {
                front
            } else if vs.len() == 1 {
                front.push((doc.last().0, HeaderValueV::One(vs.first())))
            } else {
                front.push((doc.last().0, HeaderValueV::Many(vs)))
            },
        }
    }
}

proof fn lemma_normalize_keys(doc: Seq<(Seq<char>, HeaderValueV)>, k: Seq<char>)
    requires
        spec_doc_has_key(spec_normalize(doc), k),
    ensures
        spec_doc_has_key(doc, k),
    decreases doc.len(),
{
    if doc.len() > 0 {
        let front = spec_normalize(doc.drop_last());
        let nd = spec_normalize(doc);
        let i = choose|i: int| 0 <= i < nd.len() && nd[i].0 == k;
        let dropped = doc.last().1 matches HeaderValueV::Many(vs) && vs.len() == 0;
        if !dropped && i == front.len() {
            assert(nd[i].0 == doc.last().0);
            assert(doc[doc.len() - 1].0 == k);
        } else {
            assert(0 <= i < front.len() && front[i].0 == k);
            lemma_normalize_keys(doc.drop_last(), k);
            let j = choose|j: int| 0 <= j < doc.drop_last().len() && doc.drop_last()[j].0 == k;
            assert(doc[j].0 == k);
        }
    }
}

/// Grouping, written as a left fold from an accumulator.
pub open spec fn spec_group_from(
    acc: Seq<(Seq<char>, HeaderValueV)>,
    pairs: Seq<(Seq<char>, Seq<char>)>,
) -> Seq<(Seq<char>, HeaderValueV)>
    decreases pairs.len(),
{
    if pairs.len() == 0 {
        acc
    } else {
        spec_group_from(
            spec_group_step(acc, pairs.first().0, pairs.first().1),
            pairs.drop_first(),
        )
    }
}

proof fn lemma_group_from_push(
    acc: Seq<(Seq<char>, HeaderValueV)>,
    pairs: Seq<(Seq<char>, Seq<char>)>,
    name: Seq<char>,
    value: Seq<char>,
)
    ensures
        spec_group_from(acc, pairs.push((name, value))) == spec_group_step(
            spec_group_from(acc, pairs),
            name,
            value,
        ),
    decreases pairs.len(),
{
    let pushed = pairs.push((name, value));
    if pairs.len() == 0 {
        assert(pushed.first() == (name, value));
        assert(pushed.drop_first() =~= Seq::<(Seq<char>, Seq<char>)>::empty());
        assert(spec_group_from(acc, pushed) == spec_group_from(
            spec_group_step(acc, name, value),
            pushed.drop_first(),
        ));
        assert(spec_group_from(spec_group_step(acc, name, value), pushed.drop_first())
            == spec_group_step(acc, name, value));
        assert(spec_group_from(acc, pairs) == acc);
    } else {
        let stepped = spec_group_step(acc, pairs.first().0, pairs.first().1);
        assert(pushed.first() == pairs.first());
        assert(pushed.drop_first() =~= pairs.drop_first().push((name, value)));
        assert(spec_group_from(acc, pushed) == spec_group_from(stepped, pushed.drop_first()));
        lemma_group_from_push(stepped, pairs.drop_first(), name, value);
        assert(spec_group_from(stepped, pairs.drop_first().push((name, value)))
            == spec_group_step(spec_group_from(stepped, pairs.drop_first()), name, value));
        assert(spec_group_from(acc, pairs) == spec_group_from(stepped, pairs.drop_first()));
    }
}

proof fn lemma_group_is_from(pairs: Seq<(Seq<char>, Seq<char>)>)
    ensures
        spec_group(pairs) == spec_group_from(Seq::empty(), pairs),
    decreases pairs.len(),
{
    if pairs.len() > 0 {
        lemma_group_is_from(pairs.drop_last());
        lemma_group_from_push(
            Seq::empty(),
            pairs.drop_last(),
            pairs.last().0,
            pairs.last().1,
        );
        assert(pairs.drop_last().push((pairs.last().0, pairs.last().1)) =~= pairs);
    }
}

proof fn lemma_group_from_append(
    acc: Seq<(Seq<char>, HeaderValueV)>,
    xs: Seq<(Seq<char>, Seq<char>)>,
    ys: Seq<(Seq<char>, Seq<char>)>,
)
    ensures
        spec_group_from(acc, xs + ys) == spec_group_from(spec_group_from(acc, xs), ys),
    decreases xs.len(),
{
    if xs.len() == 0 {
        assert(xs + ys =~= ys);
    } else {
        assert((xs + ys).first() == xs.first());
        assert((xs + ys).drop_first() =~= xs.drop_first() + ys);
        lemma_group_from_append(
            spec_group_step(acc, xs.first().0, xs.first().1),
            xs.drop_first(),
            ys,
        );
    }
}

/// The pairs that one entry under name `k` with values `vs` flattens to.
pub open spec fn spec_block(k: Seq<char>, vs: Seq<Seq<char>>) -> Seq<(Seq<char>, Seq<char>)> {
    Seq::new(vs.len(), |i: int| (k, vs[i]))
}

proof fn lemma_group_block(
    acc: Seq<(Seq<char>, HeaderValueV)>,
    name: Seq<char>,
    vs: Seq<Seq<char>>,
)
    requires
        !spec_doc_has_key(acc, spec_lower_seq(name)),
        vs.len() >= 1,
    ensures
        spec_group_from(acc, spec_block(name, vs)) == acc.push(
            (
                spec_lower_seq(name),
                if vs.len() == 1 {
                    HeaderValueV::One(vs.first())
                } else {
                    HeaderValueV::Many(vs)
                },
            ),
        ),
    decreases vs.len(),
{
    let k = spec_lower_seq(name);
    if vs.len() == 1 {
        assert(spec_block(name, vs) =~= Seq::<(Seq<char>, Seq<char>)>::empty().push(
            (name, vs.first()),
        ));
        lemma_group_from_push(acc, Seq::empty(), name, vs.first());
        assert(!(exists|i: int| 0 <= i < acc.len() && acc[i].0 == k));
        assert(spec_group_step(acc, name, vs.first()) == acc.push(
            (k, HeaderValueV::One(vs.first())),
        ));
    } else {
        lemma_group_block(acc, name, vs.drop_last());
        let inner = spec_group_from(acc, spec_block(name, vs.drop_last()));
        assert(spec_block(name, vs) =~= spec_block(name, vs.drop_last()).push((name, vs.last())));
        lemma_group_from_push(acc, spec_block(name, vs.drop_last()), name, vs.last());
        assert(spec_group_from(acc, spec_block(name, vs)) == spec_group_step(
            inner,
            name,
            vs.last(),
        ));
        // the lowered name sits only in the entry just pushed, so the
        // step upgrades it
        assert(inner[acc.len() as int].0 == k);
        let w = choose|i: int| 0 <= i < inner.len() && inner[i].0 == k;
        assert(w == acc.len()) by {
            if w != acc.len() {
                assert(0 <= w < acc.len());
                assert(inner[w] == acc[w]);
            }
        }
        if vs.len() == 2 {
            assert(inner[w].1 == HeaderValueV::One(vs.drop_last().first()));
            assert(seq![vs.drop_last().first(), vs.last()] =~= vs);
            assert(spec_group_step(inner, name, vs.last()) =~= acc.push(
                (k, HeaderValueV::Many(vs)),
            ));
        } else {
            assert(inner[w].1 == HeaderValueV::Many(vs.drop_last()));
            assert(vs.drop_last().push(vs.last()) =~= vs);
            assert(spec_group_step(inner, name, vs.last()) =~= acc.push(
                (k, HeaderValueV::Many(vs)),
            ));
        }
    }
}

/// Header round-trip: flattening a canonical header document into pairs
/// and grouping those pairs again rebuilds the document exactly — names
/// stay, each value stays, and the order of a repeated header's values is
/// kept.
pub proof fn lemma_header_doc_round_trip(doc: Seq<(Seq<char>, HeaderValueV)>)
    requires
        spec_doc_wf(doc),
    ensures
        spec_group(spec_flatten(doc)) == doc,
    decreases doc.len(),
{
    lemma_group_is_from(spec_flatten(doc));
    if doc.len() == 0 {
        assert(spec_flatten(doc) =~= Seq::<(Seq<char>, Seq<char>)>::empty());
        assert(spec_group(spec_flatten(doc)) =~= doc);
    } else {
        let front = doc.drop_last();
        let k = doc.last().0;
        assert(spec_doc_wf(front)) by {
            assert(forall|i: int| 0 <= i < front.len() ==> front[i] == doc[i]);
        }
        lemma_header_doc_round_trip(front);
        lemma_group_is_from(spec_flatten(front));
        let block = match doc.last().1 {
            HeaderValueV::One(s) => seq![(k, s)],
            HeaderValueV::Many(vs) => spec_block(k, vs),
        };
        assert(spec_flatten(doc) == spec_flatten(front) + block) by {
            match doc.last().1 {
                HeaderValueV::One(s) => {
                    assert(block =~= seq![(doc.last().0, s)]);
                },
                HeaderValueV::Many(vs) => {
                    assert(block =~= Seq::new(vs.len(), |i: int| (doc.last().0, vs[i])));
                },
            }
        }
        lemma_group_from_append(Seq::empty(), spec_flatten(front), block);
        assert(spec_group_from(Seq::empty(), spec_flatten(front)) == front);
        assert(!spec_doc_has_key(front, k)) by {
            if exists|i: int| 0 <= i < front.len() && front[i].0 == k {
                let i = choose|i: int| 0 <= i < front.len() && front[i].0 == k;
                assert(doc[i].0 == doc[doc.len() - 1].0);
            }
        }
        assert(spec_lower_seq(k) == k) by {
            assert(doc[doc.len() - 1].0 == k);
        }
        match doc.last().1 {
            HeaderValueV::One(s) => {
                assert(block =~= spec_block(k, seq![s]));
                lemma_group_block(front, k, seq![s]);
                assert(spec_group_from(front, block) == front.push((k, HeaderValueV::One(s))));
            },
            HeaderValueV::Many(vs) => {
                assert(vs.len() >= 2) by {
                    assert(doc[doc.len() - 1].1 == HeaderValueV::Many(vs));
                }
                lemma_group_block(front, k, vs);
            },
        }
        assert(front.push((doc.last().0, doc.last().1)) =~= doc);
    }
}

proof fn lemma_group_flatten_normalizes(doc: Seq<(Seq<char>, HeaderValueV)>)
    requires
        spec_doc_names_canonical(doc),
    ensures
        spec_group(spec_flatten(doc)) == spec_normalize(doc),
    decreases doc.len(),
{
    lemma_group_is_from(spec_flatten(doc));
    if doc.len() == 0 {
        assert(spec_flatten(doc) =~= Seq::<(Seq<char>, Seq<char>)>::empty());
        assert(spec_group(spec_flatten(doc)) =~= spec_normalize(doc));
    } else {
        let front = doc.drop_last();
        let k = doc.last().0;
        assert(spec_doc_names_canonical(front)) by {
            assert(forall|i: int| 0 <= i < front.len() ==> front[i] == doc[i]);
        }
        lemma_group_flatten_normalizes(front);
        lemma_group_is_from(spec_flatten(front));
        let nf = spec_normalize(front);
        let block = match doc.last().1 {
            HeaderValueV::One(s) => seq![(k, s)],
            HeaderValueV::Many(vs) => spec_block(k, vs),
        };
        assert(spec_flatten(doc) == spec_flatten(front) + block) by {
            match doc.last().1 {
                HeaderValueV::One(s) => {
                    assert(block =~= seq![(doc.last().0, s)]);
                },
                HeaderValueV::Many(vs) => {
                    assert(block =~= Seq::new(vs.len(), |i: int| (doc.last().0, vs[i])));
                },
            }
        }
        lemma_group_from_append(Seq::empty(), spec_flatten(front), block);
        assert(spec_group_from(Seq::empty(), spec_flatten(front)) == nf);
        assert(!spec_doc_has_key(nf, k)) by {
            if spec_doc_has_key(nf, k) {
                lemma_normalize_keys(front, k);
                let i = choose|i: int| 0 <= i < front.len() && front[i].0 == k;
                assert(doc[i].0 == doc[doc.len() - 1].0);
            }
        }
        assert(spec_lower_seq(k) == k) by {
            assert(doc[doc.len() - 1].0 == k);
        }
        match doc.last().1 {
            HeaderValueV::One(s) => {
                assert(block =~= spec_block(k, seq![s]));
                lemma_group_block(nf, k, seq![s]);
            },
            HeaderValueV::Many(vs) => {
                if vs.len() == 0 {
                    assert(block =~= Seq::<(Seq<char>, Seq<char>)>::empty());
                    assert(spec_group_from(nf, block) == nf);
                } else {
                    lemma_group_block(nf, k, vs);
                }
            },
        }
    }
}

proof fn lemma_flatten_normalize(doc: Seq<(Seq<char>, HeaderValueV)>)
    ensures
        spec_flatten(spec_normalize(doc)) == spec_flatten(doc),
    decreases doc.len(),
{
    if doc.len() > 0 {
        let front = doc.drop_last();
        lemma_flatten_normalize(front);
        let nf = spec_normalize(front);
        let nd = spec_normalize(doc);
        match doc.last().1 {
            HeaderValueV::One(s) => {
                assert(nd == nf.push((doc.last().0, HeaderValueV::One(s))));
                assert(nd.drop_last() =~= nf);
                assert(spec_flatten(nd) == spec_flatten(nf) + seq![(doc.last().0, s)]);
            },
            HeaderValueV::Many(vs) => {
                if vs.len() == 0 {
                    assert(nd == nf);
                    assert(Seq::new(vs.len(), |i: int| (doc.last().0, vs[i]))
                        =~= Seq::<(Seq<char>, Seq<char>)>::empty());
                    assert(spec_flatten(doc) =~= spec_flatten(front));
                } else if vs.len() == 1 {
                    assert(nd == nf.push((doc.last().0, HeaderValueV::One(vs.first()))));
                    assert(nd.drop_last() =~= nf);
                    assert(spec_flatten(nd) == spec_flatten(nf) + seq![(doc.last().0, vs.first())]);
                    assert(Seq::new(vs.len(), |i: int| (doc.last().0, vs[i])) =~= seq![
                        (doc.last().0, vs.first()),
                    ]);
                } else {
                    assert(nd == nf.push((doc.last().0, HeaderValueV::Many(vs))));
                    assert(nd.drop_last() =~= nf);
                    assert(spec_flatten(nd) == spec_flatten(nf) + Seq::new(
                        vs.len(),
                        |i: int| (doc.last().0, vs[i]),
                    ));
                }
            },
        }
    }
}

/// Entry names lowered, document-side.
pub open spec fn spec_lower_names_doc(doc: Seq<(Seq<char>, HeaderValueV)>) -> Seq<
    (Seq<char>, HeaderValueV),
> {
    Seq::new(doc.len(), |i: int| (spec_lower_seq(doc[i].0), doc[i].1))
}

/// Pair names lowered, entry-side.
pub open spec fn spec_lower_names_pairs(pairs: Seq<(Seq<char>, Seq<char>)>) -> Seq<
    (Seq<char>, Seq<char>),
> {
    Seq::new(pairs.len(), |i: int| (spec_lower_seq(pairs[i].0), pairs[i].1))
}

proof fn lemma_flatten_lower_commutes(doc: Seq<(Seq<char>, HeaderValueV)>)
    ensures
        spec_flatten(spec_lower_names_doc(doc)) == spec_lower_names_pairs(spec_flatten(doc)),
    decreases doc.len(),
{
    if doc.len() == 0 {
        assert(spec_lower_names_doc(doc) =~= Seq::<(Seq<char>, HeaderValueV)>::empty());
        assert(spec_flatten(spec_lower_names_doc(doc)) =~= spec_lower_names_pairs(
            spec_flatten(doc),
        ));
    } else {
        lemma_flatten_lower_commutes(doc.drop_last());
        let ld = spec_lower_names_doc(doc);
        assert(ld.drop_last() =~= spec_lower_names_doc(doc.drop_last()));
        assert(ld.last() == (spec_lower_seq(doc.last().0), doc.last().1));
        match doc.last().1 {
            HeaderValueV::One(v) => {
                assert(spec_flatten(ld) =~= spec_lower_names_pairs(spec_flatten(doc)));
            },
            HeaderValueV::Many(vs) => {
                assert(spec_flatten(ld) =~= spec_lower_names_pairs(spec_flatten(doc)));
            },
        }
    }
}

proof fn lemma_group_flatten_normalizes_mixed(doc: Seq<(Seq<char>, HeaderValueV)>)
    requires
        spec_doc_keys_distinct(spec_lower_names_doc(doc)),
    ensures
        spec_group(spec_flatten(doc)) == spec_normalize(spec_lower_names_doc(doc)),
    decreases doc.len(),
{
    lemma_group_is_from(spec_flatten(doc));
    if doc.len() == 0 {
        assert(spec_flatten(doc) =~= Seq::<(Seq<char>, Seq<char>)>::empty());
        assert(spec_lower_names_doc(doc) =~= Seq::<(Seq<char>, HeaderValueV)>::empty());
        assert(spec_group(spec_flatten(doc)) =~= spec_normalize(spec_lower_names_doc(doc)));
    } else {
        let front = doc.drop_last();
        let name = doc.last().0;
        let k = spec_lower_seq(name);
        assert(spec_lower_names_doc(front) =~= spec_lower_names_doc(doc).drop_last());
        assert(spec_doc_keys_distinct(spec_lower_names_doc(front))) by {
            assert(forall|i: int|
                0 <= i < spec_lower_names_doc(front).len() ==> spec_lower_names_doc(front)[i]
                    == spec_lower_names_doc(doc)[i]);
        }
        lemma_group_flatten_normalizes_mixed(front);
        lemma_group_is_from(spec_flatten(front));
        let nf = spec_normalize(spec_lower_names_doc(front));
        let block = match doc.last().1 {
            HeaderValueV::One(s) => seq![(name, s)],
            HeaderValueV::Many(vs) => spec_block(name, vs),
        };
        assert(spec_flatten(doc) == spec_flatten(front) + block) by {
            match doc.last().1 {
                HeaderValueV::One(s) => {
                    assert(block =~= seq![(doc.last().0, s)]);
                },
                HeaderValueV::Many(vs) => {
                    assert(block =~= Seq::new(vs.len(), |i: int| (doc.last().0, vs[i])));
                },
            }
        }
        lemma_group_from_append(Seq::empty(), spec_flatten(front), block);
        assert(spec_group_from(Seq::empty(), spec_flatten(front)) == nf);
        assert(!spec_doc_has_key(nf, k)) by {
            if spec_doc_has_key(nf, k) {
                lemma_normalize_keys(spec_lower_names_doc(front), k);
                let i = choose|i: int|
                    0 <= i < spec_lower_names_doc(front).len() && spec_lower_names_doc(front)[
                    i].0 == k;
                assert(spec_lower_names_doc(doc)[i].0 == spec_lower_names_doc(doc)[doc.len()
                    - 1].0);
            }
        }
        let nd = spec_normalize(spec_lower_names_doc(doc));
        assert(spec_lower_names_doc(doc).last() == (k, doc.last().1));
        match doc.last().1 {
            HeaderValueV::One(s) => {
                assert(block =~= spec_block(name, seq![s]));
                lemma_group_block(nf, name, seq![s]);
                assert(nd == nf.push((k, HeaderValueV::One(s))));
            },
            HeaderValueV::Many(vs) => {
                if vs.len() == 0 {
                    assert(block =~= Seq::<(Seq<char>, Seq<char>)>::empty());
                    assert(spec_group_from(nf, block) == nf);
                    assert(nd == nf);
                } else {
                    lemma_group_block(nf, name, vs);
                    assert(nd == nf.push(
                        (
                            k,
                            if vs.len() == 1 {
                                HeaderValueV::One(vs.first())
                            } else {
                                HeaderValueV::Many(vs)
                            },
                        ),
                    ));
                }
            },
        }
    }
}

/// Header round-trip for arbitrary-case names: for any document whose
/// names are distinct once lowered — whatever shape each value has —
/// flattening, regrouping, and flattening again yields the same header
/// entries with their names lowered: name-insensitive, value-exact, a
/// repeated header's values in their original order.
pub proof fn lemma_header_entries_preserved_mixed(doc: Seq<(Seq<char>, HeaderValueV)>)
    requires
        spec_doc_keys_distinct(spec_lower_names_doc(doc)),
    ensures
        spec_flatten(spec_group(spec_flatten(doc))) == spec_lower_names_pairs(spec_flatten(doc)),
{
    lemma_group_flatten_normalizes_mixed(doc);
    lemma_flatten_normalize(spec_lower_names_doc(doc));
    lemma_flatten_lower_commutes(doc);
}

/// Header round-trip, as entries: for any document with distinct
/// lowercase names — whatever shape each value has — flattening,
/// regrouping, and flattening again yields exactly the same header
/// entries: each name with each of its values, value-exact, with a
/// repeated header's values in their original order.
pub proof fn lemma_header_entries_preserved(doc: Seq<(Seq<char>, HeaderValueV)>)
    requires
        spec_doc_names_canonical(doc),
    ensures
        spec_flatten(spec_group(spec_flatten(doc))) == spec_flatten(doc),
{
    lemma_group_flatten_normalizes(doc);
    lemma_flatten_normalize(doc);
}

/// Find the entry holding `k`, if any.
fn doc_find(doc: &Vec<(String, HeaderValue)>, k: &str) -> (r: Option<usize>)
    ensures
        match r {
            Some(i) => 0 <= i < doc.deep_view().len() && doc.deep_view()[i as int].0 == k@,
            None => forall|i: int| 0 <= i < doc.deep_view().len() ==> doc.deep_view()[i].0 != k@,
        },
{
    let mut i: usize = 0;
    while i < doc.len()
        invariant
            0 <= i <= doc.len(),
            forall|j: int| 0 <= j < i ==> doc.deep_view()[j].0 != k@,
        decreases doc.len() - i,
    {
        if str_eq(doc[i].0.as_str(), k) {
            assert(doc.deep_view()[i as int].0 == k@);
            return Some(i);
        }
        i += 1;
    }
    None
}

/// Group incoming header pairs into a header document: names are
/// lowercased; a repeated name collects its values, in order, into a list.
pub fn group_header_pairs(pairs: &Vec<(String, String)>) -> (r: Vec<(String, HeaderValue)>)
    ensures
        r.deep_view() == spec_group(pairs.deep_view()),
{
    let mut doc: Vec<(String, HeaderValue)> = Vec::new();
    let mut i: usize = 0;
    while i < pairs.len()
        invariant
            0 <= i <= pairs.len(),
            doc.deep_view() == spec_group(pairs.deep_view().take(i as int)),
        decreases pairs.len() - i,
    {
        let k = ascii_lower(pairs[i].0.as_str());
        let v = pairs[i].1.clone();
        let ghost pre = doc.deep_view();
        let ghost namev = pairs.deep_view()[i as int].0;
        let ghost valv = pairs.deep_view()[i as int].1;
        match doc_find(&doc, k.as_str()) {
            Some(at) => {
                let mut tmp: (String, HeaderValue) = (String::new(), HeaderValue::One(
                    String::new(),
                ));
                doc.set_and_swap(at, &mut tmp);
                let ghost mid = doc.deep_view();
                let (key_kept, entry) = tmp;
                let ghost entryv = entry@;
                let upgraded = match entry {
                    HeaderValue::One(s) => {
                        let mut vs: Vec<String> = Vec::new();
                        vs.push(s);
                        vs.push(v);
                        HeaderValue::Many(vs)
                    },
                    HeaderValue::Many(mut vs) => {
                        vs.push(v);
                        HeaderValue::Many(vs)
                    },
                };
                let ghost upview = upgraded@;
                proof {
                    assert(entryv == pre[at as int].1);
                    assert(upview =~~= (match pre[at as int].1 {
                        HeaderValueV::One(s) => HeaderValueV::Many(seq![s, valv]),
                        HeaderValueV::Many(vs) => HeaderValueV::Many(vs.push(valv)),
                    }));
                }
                doc.set(at, (key_kept, upgraded));
                proof {
                    lemma_group_distinct(pairs.deep_view().take(i as int));
                    let k2 = spec_lower_seq(namev);
                    assert(pre[at as int].0 == k2);
                    assert(key_kept@ == k2);
                    let w = choose|j: int| 0 <= j < pre.len() && pre[j].0 == k2;
                    assert(0 <= w < pre.len() && pre[w].0 == k2);
                    assert(w == at) by {
                        if w != at {
                            assert(pre[w].0 != pre[at as int].0);
                        }
                    }
                    assert(doc.deep_view() =~~= mid.update(at as int, (k2, upview)));
                    assert(mid =~~= pre.update(
                        at as int,
                        (Seq::<char>::empty(), HeaderValueV::One(Seq::<char>::empty())),
                    ));
                    assert(doc.deep_view() =~~= spec_group_step(pre, namev, valv));
                }
            },
            None => {
                doc.push((k, HeaderValue::One(v)));
                proof {
                    assert(doc.deep_view() =~~= pre.push((spec_lower_seq(namev), HeaderValueV::One(
                        valv,
                    ))));
                    assert(doc.deep_view() =~~= spec_group_step(pre, namev, valv));
                }
            },
        }
        proof {
            assert(pairs.deep_view().take(i + 1).drop_last() =~~= pairs.deep_view().take(i as int));
            assert(pairs.deep_view().take(i + 1).last() == pairs.deep_view()[i as int]);
        }
        i += 1;
    }
    proof {
        assert(pairs.deep_view().take(pairs.deep_view().len() as int) =~~= pairs.deep_view());
    }
    doc
}

/// Flatten a header document back into pairs, entry by entry, keeping the
/// order of a repeated header's values.
pub fn flatten_header_doc(doc: &Vec<(String, HeaderValue)>) -> (r: Vec<(String, String)>)
    ensures
        r.deep_view() == spec_flatten(doc.deep_view()),
{
    let mut out: Vec<(String, String)> = Vec::new();
    let mut i: usize = 0;
    while i < doc.len()
        invariant
            0 <= i <= doc.len(),
            out.deep_view() == spec_flatten(doc.deep_view().take(i as int)),
        decreases doc.len() - i,
    {
        let ghost pre = out.deep_view();
        match &doc[i].1 {
            HeaderValue::One(s) => {
                out.push((doc[i].0.clone(), s.clone()));
            },
            HeaderValue::Many(vs) => {
                let mut j: usize = 0;
                while j < vs.len()
                    invariant
                        0 <= j <= vs.len(),
                        0 <= i < doc.len(),
                        doc.deep_view()[i as int].1 matches HeaderValueV::Many(ws) && ws
                            == vs.deep_view(),
                        out.deep_view() =~~= pre + Seq::new(
                            j as nat,
                            |q: int| (doc.deep_view()[i as int].0, vs.deep_view()[q]),
                        ),
                    decreases vs.len() - j,
                {
                    let ghost snap = out.deep_view();
                    proof {
                        assert(snap == pre + Seq::new(
                            j as nat,
                            |q: int| (doc.deep_view()[i as int].0, vs.deep_view()[q]),
                        ));
                    }
                    out.push((doc[i].0.clone(), vs[j].clone()));
                    proof {
                        assert(out.deep_view() =~~= snap.push(
                            (doc.deep_view()[i as int].0, vs.deep_view()[j as int]),
                        ));
                        assert(out.deep_view() =~~= pre + Seq::new(
                            (j + 1) as nat,
                            |q: int| (doc.deep_view()[i as int].0, vs.deep_view()[q]),
                        ));
                    }
                    j += 1;
                }
            },
        }
        proof {
            assert(doc.deep_view().take(i + 1).drop_last() =~~= doc.deep_view().take(i as int));
            assert(doc.deep_view().take(i + 1).last() == doc.deep_view()[i as int]);
            match doc.deep_view()[i as int].1 {
                HeaderValueV::One(s) => {
                    assert(out.deep_view() =~~= spec_flatten(doc.deep_view().take(i + 1)));
                },
                HeaderValueV::Many(vs) => {
                    assert(out.deep_view() =~~= spec_flatten(doc.deep_view().take(i + 1)));
                },
            }
        }
        i += 1;
    }
    proof {
        assert(doc.deep_view().take(doc.deep_view().len() as int) =~~= doc.deep_view());
    }
    out
}

/// Marshal host header pairs into a JSON-object payload: names lowercased,
/// a repeated name becoming an array of its values in order.
pub fn from_pwm_headers(vec: &Vec<(String, String)>) -> (r: Payload)
    ensures
        r@ is Json,
{
    let doc = group_header_pairs(vec);
    let mut entries: Vec<(String, serde_json::Value)> = Vec::new();
    let mut i: usize = 0;
    while i < doc.len()
        decreases doc.len() - i,
    {
        let (name, hv) = &doc[i];
        let value = match hv {
            HeaderValue::One(s) => json_string(s.clone()),
            HeaderValue::Many(vs) => {
                let mut items: Vec<serde_json::Value> = Vec::new();
                let mut j: usize = 0;
                while j < vs.len()
                    decreases vs.len() - j,
                {
                    items.push(json_string(vs[j].clone()));
                    j += 1;
                }
                crate::json::json_array(items)
            },
        };
        entries.push((name.clone(), value));
        i += 1;
    }
    Payload::Json(json_object(entries))
}

/// The strings present in a list of optional strings, in order.
pub open spec fn spec_strings_present(items: Seq<Option<Seq<char>>>) -> Seq<Seq<char>>
    decreases items.len(),
{
    if items.len() == 0 {
        Seq::empty()
    } else {
        spec_strings_present(items.drop_last()) + (match items.last() {
            Some(s) => seq![s],
            None => Seq::empty(),
        })
    }
}

/// The pairs that one classified object entry yields as headers: a string
/// value gives one pair, an array one pair per string element, any other
/// shape none.
pub open spec fn spec_pairs_of_shape(name: Seq<char>, shape: HeaderShapeV) -> Seq<
    (Seq<char>, Seq<char>),
> {
    match shape {
        HeaderShapeV::Str(s) => seq![(name, s)],
        HeaderShapeV::List(items) => {
            let vs = spec_strings_present(items);
            Seq::new(vs.len(), |i: int| (name, vs[i]))
        },
        HeaderShapeV::Other => Seq::empty(),
    }
}

/// The pairs that a sequence of classified object entries yields.
pub open spec fn spec_pairs_from_shapes(entries: Seq<(Seq<char>, HeaderShapeV)>) -> Seq<
    (Seq<char>, Seq<char>),
>
    decreases entries.len(),
{
    if entries.len() == 0 {
        Seq::empty()
    } else {
        spec_pairs_from_shapes(entries.drop_last()) + spec_pairs_of_shape(
            entries.last().0,
            entries.last().1,
        )
    }
}

/// Turn classified object entries into header pairs, in order.
pub fn pairs_from_entries(entries: &Vec<(String, HeaderShape)>) -> (r: Vec<(String, String)>)
    ensures
        r.deep_view() == spec_pairs_from_shapes(entries.deep_view()),
{
    let mut out: Vec<(String, String)> = Vec::new();
    let mut i: usize = 0;
    while i < entries.len()
        invariant
            0 <= i <= entries.len(),
            out.deep_view() == spec_pairs_from_shapes(entries.deep_view().take(i as int)),
        decreases entries.len() - i,
    {
        let ghost pre = out.deep_view();
        let name = &entries[i].0;
        match &entries[i].1 {
            HeaderShape::Str(s) => {
                out.push((name.clone(), s.clone()));
                proof {
                    assert(out.deep_view() =~~= pre + spec_pairs_of_shape(
                        name@,
                        entries.deep_view()[i as int].1,
                    ));
                }
            },
            HeaderShape::List(items) => {
                let mut j: usize = 0;
                while j < items.len()
                    invariant
                        0 <= j <= items.len(),
                        0 <= i < entries@.len(),
                        entries.deep_view()[i as int].1 == HeaderShapeV::List(items.deep_view()),
                        name@ == entries.deep_view()[i as int].0,
                        out.deep_view() =~~= pre + Seq::new(
                            spec_strings_present(items.deep_view().take(j as int)).len(),
                            |q: int| (name@, spec_strings_present(
                                items.deep_view().take(j as int),
                            )[q]),
                        ),
                    decreases items.len() - j,
                {
                    let ghost before = items.deep_view().take(j as int);
                    proof {
                        assert(items.deep_view().take(j + 1).drop_last() =~~= before);
                        assert(items.deep_view().take(j + 1).last() == items.deep_view()[j as int]);
                    }
                    let ghost snap = out.deep_view();
                    proof {
                        assert(snap == pre + Seq::new(
                            spec_strings_present(before).len(),
                            |q: int| (name@, spec_strings_present(before)[q]),
                        ));
                    }
                    if let Some(s) = &items[j] {
                        out.push((name.clone(), s.clone()));
                        proof {
                            assert(spec_strings_present(items.deep_view().take(j + 1))
                                =~~= spec_strings_present(before).push(s@));
                            assert(out.deep_view() =~~= snap.push((name@, s@)));
                            assert(out.deep_view() =~~= pre + Seq::new(
                                spec_strings_present(items.deep_view().take(j + 1)).len(),
                                |q: int| (name@, spec_strings_present(
                                    items.deep_view().take(j + 1),
                                )[q]),
                            ));
                        }
                    } else {
                        proof {
                            assert(spec_strings_present(items.deep_view().take(j + 1))
                                =~~= spec_strings_present(before));
                            assert(out.deep_view() =~~= pre + Seq::new(
                                spec_strings_present(items.deep_view().take(j + 1)).len(),
                                |q: int| (name@, spec_strings_present(
                                    items.deep_view().take(j + 1),
                                )[q]),
                            ));
                        }
                    }
                    j += 1;
                }
                proof {
                    assert(items.deep_view().take(items.deep_view().len() as int)
                        =~~= items.deep_view());
                    assert(out.deep_view() =~~= pre + spec_pairs_of_shape(
                        name@,
                        entries.deep_view()[i as int].1,
                    ));
                }
            },
            HeaderShape::Other => {
                proof {
                    assert(out.deep_view() =~~= pre + spec_pairs_of_shape(
                        name@,
                        entries.deep_view()[i as int].1,
                    ));
                }
            },
        }
        proof {
            assert(entries.deep_view().take(i + 1).drop_last() =~~= entries.deep_view().take(
                i as int,
            ));
            assert(entries.deep_view().take(i + 1).last() == entries.deep_view()[i as int]);
        }
        i += 1;
    }
    proof {
        assert(entries.deep_view().take(entries.deep_view().len() as int) =~~= entries.deep_view());
    }
    out
}

impl Payload {
    /// The payload in HTTP header form: defined for a JSON object whose
    /// values are strings or arrays of strings; other payloads, and other
    /// value shapes inside the object, yield nothing.
    pub fn to_pwm_headers(&self) -> (r: Vec<(String, String)>)
        ensures
            !(self@ is Json) ==> r@.len() == 0,
    {
        match self {
            Payload::Json(v) => {
                match object_entries(v) {
                    Some(entries) => {
                        let mut shaped: Vec<(String, HeaderShape)> = Vec::new();
                        let mut i: usize = 0;
                        while i < entries.len()
                            decreases entries.len() - i,
                        {
                            shaped.push((entries[i].0.clone(), header_shape(&entries[i].1)));
                            i += 1;
                        }
                        pairs_from_entries(&shaped)
                    },
                    None => Vec::new(),
                }
            },
            _ => Vec::new(),
        }
    }
}

/// Header form of an optional payload: nothing, and any payload that is
/// not a JSON tree, give no headers.
pub fn to_pwm_headers(payload: Option<&Payload>) -> (r: Vec<(String, String)>)
    ensures
        payload is None ==> r@.len() == 0,
        (payload matches Some(p) && !(p@ is Json)) ==> r@.len() == 0,
{
    match payload {
        Some(p) => p.to_pwm_headers(),
        None => Vec::new(),
    }
}

/// Body form of an optional payload: nothing stays nothing; an error
/// payload fails with its message.
pub fn to_pwm_body(payload: Option<&Payload>) -> (r: Result<Option<Vec<u8>>, String>)
    ensures
        match payload {
            None => r matches Ok(b) && b is None,
            Some(p) => match p@ {
                PayloadV::Raw(bytes) => r matches Ok(b) && b matches Some(v) && v@ == bytes,
                PayloadV::Error(e) => r matches Err(m) && m@ == e,
                PayloadV::Json(_) => r matches Ok(b) && b is Some,
            },
        },
{
    match payload {
        Some(p) => match p.to_bytes() {
            Ok(b) => Ok(Some(b)),
            Err(e) => Err(e),
        },
        None => Ok(None),
    }
}

} // verus!
