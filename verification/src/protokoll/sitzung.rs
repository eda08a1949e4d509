use vstd::prelude::*;
use vstd::string::StringExecFns;

use crate::datetime::{
    DateTime, datetime_valid, spec_date_iso, spec_pad2, format_date_iso, pad2,
};
use crate::error::Error;
use crate::strutil::str_eq;

verus! {

/// The closed set of meeting kinds. The kind decides the document title,
/// the file-name prefix and the token written into the metadata block.
#[derive(Clone, Copy, PartialEq, Eq, Structural, Debug)]
pub enum SitzungKind {
    Normal,
    VV,
    WahlVV,
    Ersatz,
    Konsti,
    Dringlichkeit,
}

/// The token that names a kind in the metadata block, one word, lower case.
pub open spec fn spec_kind_token(k: SitzungKind) -> Seq<char> {
    match k {
        SitzungKind::Normal => "normal"@,
        SitzungKind::VV => "vv"@,
        SitzungKind::WahlVV => "wahlvv"@,
        SitzungKind::Ersatz => "ersatz"@,
        SitzungKind::Konsti => "konsti"@,
        SitzungKind::Dringlichkeit => "dringlichkeit"@,
    }
}

/// The title word the kind puts in front of the date.
pub open spec fn spec_title_prefix(k: SitzungKind) -> Seq<char> {
    match k {
        SitzungKind::VV | SitzungKind::WahlVV => "VV-Protokoll"@,
        SitzungKind::Konsti => "Konsti-Protokoll"@,
        _ => "Protokoll"@,
    }
}

/// The file-name prefix of the kind: plenary-assembly and constitutive
/// meetings get their own, everything else none.
pub open spec fn spec_file_prefix(k: SitzungKind) -> Seq<char> {
    match k {
        SitzungKind::VV | SitzungKind::WahlVV => "vv-"@,
        SitzungKind::Konsti => "konsti-"@,
        _ => Seq::empty(),
    }
}

pub fn kind_token(k: &SitzungKind) -> (r: &'static str)
    ensures
        r@ == spec_kind_token(*k),
{
    match k {
        SitzungKind::Normal => "normal",
        SitzungKind::VV => "vv",
        SitzungKind::WahlVV => "wahlvv",
        SitzungKind::Ersatz => "ersatz",
        SitzungKind::Konsti => "konsti",
        SitzungKind::Dringlichkeit => "dringlichkeit",
    }
}

pub fn title_prefix(k: &SitzungKind) -> (r: &'static str)
    ensures
        r@ == spec_title_prefix(*k),
{
    match k {
        SitzungKind::VV | SitzungKind::WahlVV => "VV-Protokoll",
        SitzungKind::Konsti => "Konsti-Protokoll",
        _ => "Protokoll",
    }
}

pub fn file_prefix(k: &SitzungKind) -> (r: &'static str)
    ensures
        r@ == spec_file_prefix(*k),
{
    match k {
        SitzungKind::VV | SitzungKind::WahlVV => "vv-",
        SitzungKind::Konsti => "konsti-",
        _ => {
            proof {
                reveal_strlit("");
                assert(""@ =~= Seq::<char>::empty());
            }
            ""
        },
    }
}

/// Reads a kind token back; anything that is no token of the table is
/// refused, so a caller can fall back to its own default.
pub fn parse_sitzung_kind(s: &str) -> (r: Option<SitzungKind>)
    ensures
        match r {
            Some(k) => s@ == spec_kind_token(k),
            None => forall|k: SitzungKind| s@ != spec_kind_token(k),
        },
{
    if str_eq(s, "normal") {
        Some(SitzungKind::Normal)
    } else if str_eq(s, "vv") {
        Some(SitzungKind::VV)
    } else if str_eq(s, "wahlvv") {
        Some(SitzungKind::WahlVV)
    } else if str_eq(s, "ersatz") {
        Some(SitzungKind::Ersatz)
    } else if str_eq(s, "konsti") {
        Some(SitzungKind::Konsti)
    } else if str_eq(s, "dringlichkeit") {
        Some(SitzungKind::Dringlichkeit)
    } else {
        proof {
            assert forall|k: SitzungKind| s@ != spec_kind_token(k) by {}
        }
        None
    }
}

/// Different kinds carry different tokens.
pub proof fn lemma_kind_token_injective(a: SitzungKind, b: SitzungKind)
    requires
        spec_kind_token(a) == spec_kind_token(b),
    ensures
        a == b,
{
    reveal_strlit("normal");
    reveal_strlit("vv");
    reveal_strlit("wahlvv");
    reveal_strlit("ersatz");
    reveal_strlit("konsti");
    reveal_strlit("dringlichkeit");
    assert(spec_kind_token(SitzungKind::Normal) =~= seq!['n', 'o', 'r', 'm', 'a', 'l']);
    assert(spec_kind_token(SitzungKind::VV) =~= seq!['v', 'v']);
    assert(spec_kind_token(SitzungKind::WahlVV) =~= seq!['w', 'a', 'h', 'l', 'v', 'v']);
    assert(spec_kind_token(SitzungKind::Ersatz) =~= seq!['e', 'r', 's', 'a', 't', 'z']);
    assert(spec_kind_token(SitzungKind::Konsti) =~= seq!['k', 'o', 'n', 's', 't', 'i']);
    assert(spec_kind_token(SitzungKind::Dringlichkeit) =~= seq![
        'd',
        'r',
        'i',
        'n',
        'g',
        'l',
        'i',
        'c',
        'h',
        'k',
        'e',
        'i',
        't',
    ]);
}

/// No kind's title word contains a line break.
pub proof fn lemma_title_prefix_no_newline(k: SitzungKind)
    ensures
        forall|j: int|
            0 <= j < spec_title_prefix(k).len() ==> #[trigger] spec_title_prefix(k)[j] != '\n',
{
    reveal_strlit("VV-Protokoll");
    reveal_strlit("Konsti-Protokoll");
    reveal_strlit("Protokoll");
}

/// No kind token contains a line break.
pub proof fn lemma_kind_token_no_newline(k: SitzungKind)
    ensures
        forall|j: int|
            0 <= j < spec_kind_token(k).len() ==> #[trigger] spec_kind_token(k)[j] != '\n',
{
    reveal_strlit("normal");
    reveal_strlit("vv");
    reveal_strlit("wahlvv");
    reveal_strlit("ersatz");
    reveal_strlit("konsti");
    reveal_strlit("dringlichkeit");
}

/// The kind a token names, where it names one.
pub open spec fn spec_kind_of_value(v: Seq<char>) -> Option<SitzungKind> {
    if exists|k: SitzungKind| spec_kind_token(k) == v {
        Some(choose|k: SitzungKind| spec_kind_token(k) == v)
    } else {
        None
    }
}

pub proof fn lemma_kind_of_value_some(v: Seq<char>, k: SitzungKind)
    requires
        spec_kind_token(k) == v,
    ensures
        spec_kind_of_value(v) == Some(k),
{
    let w = choose|x: SitzungKind| spec_kind_token(x) == v;
    lemma_kind_token_injective(w, k);
}

/// A proposal tied to an agenda item. Whether it was submitted in time is
/// judged against the meeting's proposal deadline.
#[derive(Clone, PartialEq, Eq, Debug)]
pub struct Antrag {
    pub titel: String,
    pub antragstext: String,
    pub begruendung: String,
    pub created_at: DateTime,
}

/// Which rendering section an agenda item appears in.
#[derive(Clone, Copy, PartialEq, Eq, Structural, Debug)]
pub enum TopKind {
    Regularia,
    Bericht,
    Normal,
    Verschiedenes,
}

/// An agenda item: a sort weight (ties keep input order), a name, body
/// text, its section kind, and its proposals.
#[derive(Clone, PartialEq, Eq, Debug)]
pub struct Top {
    pub weight: i64,
    pub name: String,
    pub antraege: Vec<Antrag>,
    pub kind: TopKind,
    pub inhalt: String,
}

/// The upcoming meeting: opaque identity, scheduled date-time, kind,
/// agenda and proposal deadline. Immutable once fetched.
#[derive(Clone, PartialEq, Eq, Debug)]
pub struct Sitzung {
    pub id: String,
    pub datetime: DateTime,
    pub kind: SitzungKind,
    pub tops: Vec<Top>,
    pub antragsfrist: DateTime,
}

pub open spec fn antrag_valid(a: Antrag) -> bool {
    datetime_valid(a.created_at)
}

pub open spec fn top_valid(t: Top) -> bool {
    forall|i: int| 0 <= i < t.antraege@.len() ==> antrag_valid(#[trigger] t.antraege@[i])
}

/// What the renderer and the persistence layer need of a meeting: the two
/// timestamps lie in range, every proposal timestamp does too, and the
/// opaque identity fits on one metadata line.
pub open spec fn sitzung_valid(s: Sitzung) -> bool {
    &&& datetime_valid(s.datetime)
    &&& datetime_valid(s.antragsfrist)
    &&& forall|i: int| 0 <= i < s.tops@.len() ==> top_valid(#[trigger] s.tops@[i])
    &&& forall|i: int| 0 <= i < s.id@.len() ==> s.id@[i] != '\n'
}

/// The lookup endpoint answers with the meetings at or after the asked
/// timestamp, earliest first; the run works on the first one and fails
/// when there is none.
pub fn select_first_sitzung(sitzungen: Vec<Sitzung>) -> (r: Result<Sitzung, Error>)
    ensures
        sitzungen@.len() == 0 ==> r == Result::<Sitzung, Error>::Err(Error::NotFound),
        sitzungen@.len() > 0 ==> (r matches Ok(s) && s == sitzungen@[0]),
{
    let mut sitzungen = sitzungen;
    if sitzungen.len() == 0 {
        Err(Error::NotFound)
    } else {
        Ok(sitzungen.remove(0))
    }
}

/// The timestamp as the lookup endpoint's query wants it: ISO-8601 with
/// the explicit offset, the colons and a leading plus written as the
/// percent escapes `%3A` and `%2B`.
pub open spec fn spec_escaped_timestamp(dt: DateTime, offset_minutes: int) -> Seq<char> {
    spec_date_iso(dt.date) + seq!['T'] + spec_pad2(dt.time.hour as int) + seq!['%', '3', 'A']
        + spec_pad2(dt.time.minute as int) + seq!['%', '3', 'A'] + spec_pad2(
        dt.time.second as int,
    ) + (if offset_minutes >= 0 {
        seq!['%', '2', 'B']
    } else {
        seq!['-']
    }) + spec_pad2(
        (if offset_minutes >= 0 {
            offset_minutes
        } else {
            -offset_minutes
        }) / 60,
    ) + seq!['%', '3', 'A'] + spec_pad2(
        (if offset_minutes >= 0 {
            offset_minutes
        } else {
            -offset_minutes
        }) % 60,
    )
}

/// The relative request target that asks for the first meeting at or
/// after `dt`.
pub open spec fn spec_sitzung_request_target(dt: DateTime, offset_minutes: int) -> Seq<char> {
    "api/sitzungen/after/?timestamp="@ + spec_escaped_timestamp(dt, offset_minutes) + "&limit=1"@
}

pub fn sitzung_request_target(dt: &DateTime, offset_minutes: i64) -> (r: String)
    requires
        datetime_valid(*dt),
        -1440 < offset_minutes < 1440,
    ensures
        r@ == spec_sitzung_request_target(*dt, offset_minutes as int),
{
    let mut s = String::new();
    s.append("api/sitzungen/after/?timestamp=");
    let date = format_date_iso(&dt.date);
    s.append(date.as_str());
    s.append("T");
    let h = pad2(dt.time.hour);
    s.append(h.as_str());
    s.append("%3A");
    let mi = pad2(dt.time.minute);
    s.append(mi.as_str());
    s.append("%3A");
    let sec = pad2(dt.time.second);
    s.append(sec.as_str());
    let abs_offset: u64 = if offset_minutes >= 0 {
        s.append("%2B");
        offset_minutes as u64
    } else {
        s.append("-");
        (-offset_minutes) as u64
    };
    let oh = pad2(abs_offset / 60);
    s.append(oh.as_str());
    s.append("%3A");
    let om = pad2(abs_offset % 60);
    s.append(om.as_str());
    s.append("&limit=1");
    proof {
        reveal_strlit("T");
        reveal_strlit("%3A");
        reveal_strlit("%2B");
        reveal_strlit("-");
        assert("T"@ =~= seq!['T']);
        assert("%3A"@ =~= seq!['%', '3', 'A']);
        assert("%2B"@ =~= seq!['%', '2', 'B']);
        assert("-"@ =~= seq!['-']);
        assert(s@ =~= spec_sitzung_request_target(*dt, offset_minutes as int));
    }
    s
}

/// The items of one section kind.
pub open spec fn kind_class(k: TopKind) -> spec_fn(Top) -> bool {
    |t: Top| t.kind == k
}

/// Weight-ascending order.
pub open spec fn sorted_by_weight(s: Seq<Top>) -> bool {
    forall|i: int, j: int| 0 <= i < j < s.len() ==> s[i].weight <= s[j].weight
}

/// The items of one weight.
pub open spec fn weight_class(w: int) -> spec_fn(Top) -> bool {
    |t: Top| t.weight == w
}

/// Stable insertion from the back: the new item lands behind every item
/// of its own weight that is already there.
pub open spec fn spec_insert_by_weight(t: Top, s: Seq<Top>) -> Seq<Top>
    decreases s.len(),
{
    if s.len() == 0 {
        seq![t]
    } else if s.last().weight <= t.weight {
        s.push(t)
    } else {
        spec_insert_by_weight(t, s.drop_last()).push(s.last())
    }
}

/// The stable sort of the agenda, weight ascending, ties in input order.
pub open spec fn spec_sort_by_weight(s: Seq<Top>) -> Seq<Top>
    decreases s.len(),
{
    if s.len() == 0 {
        Seq::empty()
    } else {
        spec_insert_by_weight(s.last(), spec_sort_by_weight(s.drop_last()))
    }
}

proof fn lemma_insert_by_weight_len(t: Top, s: Seq<Top>)
    ensures
        spec_insert_by_weight(t, s).len() == s.len() + 1,
    decreases s.len(),
{
    if s.len() > 0 && s.last().weight > t.weight {
        lemma_insert_by_weight_len(t, s.drop_last());
    }
}

proof fn lemma_insert_by_weight_sorted(t: Top, s: Seq<Top>)
    requires
        sorted_by_weight(s),
    ensures
        sorted_by_weight(spec_insert_by_weight(t, s)),
    decreases s.len(),
{
    lemma_insert_by_weight_len(t, s);
    if s.len() == 0 {
    } else if s.last().weight <= t.weight {
        assert forall|i: int, j: int|
            0 <= i < j < s.push(t).len() implies s.push(t)[i].weight <= s.push(t)[j].weight by {
            if j < s.len() {
            } else {
                if i < s.len() - 1 {
                    assert(s[i].weight <= s[s.len() - 1].weight);
                }
            }
        }
    } else {
        let dl = s.drop_last();
        assert(sorted_by_weight(dl));
        lemma_insert_by_weight_sorted(t, dl);
        lemma_insert_by_weight_len(t, dl);
        let inner = spec_insert_by_weight(t, dl);
        let out = inner.push(s.last());
        assert forall|i: int, j: int|
            0 <= i < j < out.len() implies out[i].weight <= out[j].weight by {
            if j < inner.len() {
            } else {
                // the last element dominates everything inserted before it
                assert(out[j] == s.last());
                if i < inner.len() {
                    lemma_insert_by_weight_members(t, dl, i);
                }
            }
        }
    }
}

/// Every element of the insertion result is the inserted item or one of
/// the old ones.
proof fn lemma_insert_by_weight_members(t: Top, s: Seq<Top>, i: int)
    requires
        0 <= i < spec_insert_by_weight(t, s).len(),
    ensures
        spec_insert_by_weight(t, s)[i] == t || exists|j: int|
            0 <= j < s.len() && spec_insert_by_weight(t, s)[i] == s[j],
    decreases s.len(),
{
    lemma_insert_by_weight_len(t, s);
    if s.len() == 0 {
    } else if s.last().weight <= t.weight {
    } else {
        let dl = s.drop_last();
        lemma_insert_by_weight_len(t, dl);
        if i < spec_insert_by_weight(t, dl).len() {
            lemma_insert_by_weight_members(t, dl, i);
            if spec_insert_by_weight(t, dl)[i] != t {
                let j = choose|j: int|
                    0 <= j < dl.len() && spec_insert_by_weight(t, dl)[i] == dl[j];
                assert(s[j] == dl[j]);
            }
        } else {
            assert(spec_insert_by_weight(t, s)[i] == s[s.len() - 1]);
        }
    }
}

/// The sorted agenda is weight ascending.
pub proof fn lemma_sort_by_weight_sorted(s: Seq<Top>)
    ensures
        sorted_by_weight(spec_sort_by_weight(s)),
        spec_sort_by_weight(s).len() == s.len(),
    decreases s.len(),
{
    if s.len() > 0 {
        lemma_sort_by_weight_sorted(s.drop_last());
        lemma_insert_by_weight_sorted(s.last(), spec_sort_by_weight(s.drop_last()));
        lemma_insert_by_weight_len(s.last(), spec_sort_by_weight(s.drop_last()));
    }
}

proof fn lemma_insert_by_weight_filter(t: Top, s: Seq<Top>, w: int)
    ensures
        spec_insert_by_weight(t, s).filter(weight_class(w)) == (if t.weight == w {
            s.filter(weight_class(w)).push(t)
        } else {
            s.filter(weight_class(w))
        }),
    decreases s.len(),
{
    broadcast use Seq::lemma_filter_push;

    let p = weight_class(w);
    if s.len() == 0 {
        reveal(Seq::filter);
        assert(seq![t].drop_last() =~= Seq::<Top>::empty());
        assert(Seq::<Top>::empty().filter(p) =~= Seq::<Top>::empty());
        assert(seq![t] =~= Seq::<Top>::empty().push(t));
        assert(s.filter(p) =~= Seq::<Top>::empty());
    } else if s.last().weight <= t.weight {
        assert(s.push(t).filter(p) == if p(t) {
            s.filter(p).push(t)
        } else {
            s.filter(p)
        });
    } else {
        let dl = s.drop_last();
        lemma_insert_by_weight_filter(t, dl, w);
        assert(s =~= dl.push(s.last()));
        assert(s.filter(p) == if p(s.last()) {
            dl.filter(p).push(s.last())
        } else {
            dl.filter(p)
        });
        let inner = spec_insert_by_weight(t, dl);
        assert(spec_insert_by_weight(t, s) == inner.push(s.last()));
        assert(inner.push(s.last()).filter(p) == if p(s.last()) {
            inner.filter(p).push(s.last())
        } else {
            inner.filter(p)
        });
        if t.weight == w {
            // the displaced last element has a greater weight, so it is
            // outside the class of t
            assert(!p(s.last()));
        }
    }
}

/// Stability: for every weight, the items of that weight stand in the
/// sorted agenda exactly as they stood in the input.
pub proof fn lemma_sort_by_weight_stable(s: Seq<Top>, w: int)
    ensures
        spec_sort_by_weight(s).filter(weight_class(w)) == s.filter(weight_class(w)),
    decreases s.len(),
{
    broadcast use Seq::lemma_filter_push;

    let p = weight_class(w);
    if s.len() == 0 {
        reveal(Seq::filter);
    } else {
        let dl = s.drop_last();
        lemma_sort_by_weight_stable(dl, w);
        lemma_insert_by_weight_filter(s.last(), spec_sort_by_weight(dl), w);
        assert(s =~= dl.push(s.last()));
        assert(s.filter(p) == if p(s.last()) {
            dl.filter(p).push(s.last())
        } else {
            dl.filter(p)
        });
    }
}

/// A filtered selection of a weight-ascending agenda is itself
/// weight-ascending.
proof fn lemma_filter_sorted(s: Seq<Top>, p: spec_fn(Top) -> bool)
    requires
        sorted_by_weight(s),
    ensures
        sorted_by_weight(s.filter(p)),
    decreases s.len(),
{
    broadcast use Seq::lemma_filter_push;

    if s.len() == 0 {
        reveal(Seq::filter);
    } else {
        let dl = s.drop_last();
        let x = s.last();
        assert(s =~= dl.push(x));
        assert(sorted_by_weight(dl));
        lemma_filter_sorted(dl, p);
        if p(x) {
            let out = dl.filter(p).push(x);
            assert forall|i: int, j: int|
                0 <= i < j < out.len() implies out[i].weight <= out[j].weight by {
                if j == out.len() - 1 {
                    crate::strutil::lemma_filter_elements(dl, p, i);
                    let m = choose|m: int| 0 <= m < dl.len() && dl.filter(p)[i] == dl[m];
                    assert(dl[m].weight <= x.weight);
                }
            }
        }
    }
}

/// The sections a render groups the agenda into keep both orders: each
/// kind's section of the sorted agenda is weight-ascending, and within
/// one weight it lists exactly the input's items of that kind and
/// weight, in input order.
pub proof fn lemma_section_grouping(s: Seq<Top>, k: TopKind, w: int)
    ensures
        sorted_by_weight(spec_sort_by_weight(s).filter(kind_class(k))),
        spec_sort_by_weight(s).filter(kind_class(k)).filter(weight_class(w)) == s.filter(
            kind_class(k),
        ).filter(weight_class(w)),
{
    lemma_sort_by_weight_sorted(s);
    lemma_filter_sorted(spec_sort_by_weight(s), kind_class(k));
    lemma_sort_by_weight_stable(s, w);
    crate::strutil::lemma_filter_commute(spec_sort_by_weight(s), kind_class(k), weight_class(w));
    crate::strutil::lemma_filter_commute(s, kind_class(k), weight_class(w));
}

/// Where the scan of the exec sort stops is where the spec insertion
/// puts the item.
proof fn lemma_insert_at_position(t: Top, s: Seq<Top>, pos: int)
    requires
        0 <= pos <= s.len(),
        forall|j: int| pos <= j < s.len() ==> s[j].weight > t.weight,
        pos > 0 ==> s[pos - 1].weight <= t.weight,
    ensures
        spec_insert_by_weight(t, s) == s.take(pos) + seq![t] + s.skip(pos),
    decreases s.len() - pos,
{
    if pos == s.len() {
        if s.len() == 0 {
            assert(spec_insert_by_weight(t, s) =~= s.take(pos) + seq![t] + s.skip(pos));
        } else {
            assert(s.last().weight <= t.weight);
            assert(s.push(t) =~= s.take(pos) + seq![t] + s.skip(pos));
        }
    } else {
        assert(s[s.len() - 1].weight > t.weight);
        let dl = s.drop_last();
        lemma_insert_at_position(t, dl, pos);
        assert(dl.take(pos) =~= s.take(pos));
        assert((dl.take(pos) + seq![t] + dl.skip(pos)).push(s.last()) =~= s.take(pos) + seq![t]
            + s.skip(pos));
    }
}

/// Sorts the agenda by weight, ascending; items of equal weight keep the
/// order in which they came. This is the client-side ordering pass every
/// fetched agenda goes through before anything is rendered.
pub fn sort_tops_by_weight(tops: Vec<Top>) -> (r: Vec<Top>)
    ensures
        r@ == spec_sort_by_weight(tops@),
        sorted_by_weight(r@),
        r@.len() == tops@.len(),
{
    let ghost orig = tops@;
    let mut rest = tops;
    let mut result: Vec<Top> = Vec::new();
    let ghost mut taken: int = 0;
    proof {
        assert(orig.take(0) =~= Seq::<Top>::empty());
    }
    while rest.len() > 0
        invariant
            0 <= taken <= orig.len(),
            rest@ =~= orig.skip(taken),
            result@ == spec_sort_by_weight(orig.take(taken)),
        decreases rest@.len(),
    {
        let t = rest.remove(0);
        proof {
            assert(t == orig[taken]);
            assert(rest@ =~= orig.skip(taken + 1));
        }
        // scan from the back for the stable insertion point
        let mut pos: usize = result.len();
        while pos > 0 && result[pos - 1].weight > t.weight
            invariant
                0 <= pos <= result@.len(),
                forall|j: int| pos <= j < result@.len() ==> result@[j].weight > t.weight,
                result@ == spec_sort_by_weight(orig.take(taken)),
            decreases pos,
        {
            pos = pos - 1;
        }
        proof {
            lemma_insert_at_position(t, result@, pos as int);
        }
        let ghost before = result@;
        result.insert(pos, t);
        proof {
            assert(result@ =~= before.take(pos as int) + seq![t] + before.skip(pos as int));
            assert(orig.take(taken + 1).drop_last() =~= orig.take(taken));
            assert(orig.take(taken + 1).last() == t);
            assert(result@ == spec_sort_by_weight(orig.take(taken + 1)));
            taken = taken + 1;
        }
    }
    proof {
        assert(orig.take(orig.len() as int) =~= orig);
        lemma_sort_by_weight_sorted(orig);
    }
    result
}

} // verus!
