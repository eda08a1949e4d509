pub mod events;
pub mod person;
pub mod raete;
pub mod sitzung;
pub mod tops;

use vstd::prelude::*;
use vstd::string::{StrSliceExecFns, StringExecFns};

use crate::datetime::{
    Date, DateTime, add_days, date_valid, datetime_after, datetime_key, datetime_valid,
    format_date_german, format_datetime_machine, format_day_month, format_hour_minute,
    lemma_date_german_no_newline, lemma_date_iso_no_newline, lemma_date_of_value_some,
    lemma_machine_no_newline, lemma_spec_add_days_valid, parse_date_iso, spec_add_days,
    spec_date_german, spec_date_iso, spec_date_of_value, spec_datetime_machine, spec_day_month,
    spec_hour_minute,
};
use crate::error::Error;
use crate::strutil::{concat_map, str_eq, starts_with};
use crate::protokoll::events::{Event, event_valid};
use crate::protokoll::person::{
    PersonWithAbmeldung, spec_anwesende_label, spec_display_name, spec_quorum_label,
};
use crate::protokoll::sitzung::{
    Antrag, Sitzung, SitzungKind, Top, TopKind, kind_class, lemma_kind_of_value_some,
    lemma_kind_token_no_newline, lemma_title_prefix_no_newline, kind_token, parse_sitzung_kind,
    sitzung_valid, spec_kind_of_value, spec_kind_token, spec_title_prefix, title_prefix,
};

verus! {

/// The structured metadata recovered from the head of a document: the
/// creation date, the last-modified date, and the meeting kind, each as
/// far as the metadata block carries it.
#[derive(Clone, Copy, PartialEq, Eq, Debug)]
pub struct ProtokollFrontmatter {
    pub date: Option<Date>,
    pub lastmod: Option<Date>,
    pub sitzung_kind: Option<SitzungKind>,
}

/// The index of the first newline, or the length where there is none.
pub open spec fn first_newline(s: Seq<char>) -> nat
    decreases s.len(),
{
    if s.len() == 0 {
        0
    } else if s[0] == '\n' {
        0
    } else {
        (1 + first_newline(s.skip(1))) as nat
    }
}

proof fn lemma_first_newline_at(s: Seq<char>, n: int)
    requires
        0 <= n <= s.len(),
        forall|j: int| 0 <= j < n ==> s[j] != '\n',
        n < s.len() ==> s[n] == '\n',
    ensures
        first_newline(s) == n,
    decreases n,
{
    if s.len() == 0 {
    } else if s[0] == '\n' {
        if n > 0 {
            assert(s[0] != '\n');
        }
    } else {
        assert(n > 0);
        lemma_first_newline_at(s.skip(1), n - 1);
    }
}

/// The lines of the metadata block: everything between the opening
/// delimiter line (already consumed) and the closing delimiter line.
/// `None` where the closing line never comes.
pub open spec fn spec_header_lines(s: Seq<char>, delim: Seq<char>) -> Option<Seq<Seq<char>>>
    decreases s.len(),
{
    let n = if first_newline(s) <= s.len() {
        first_newline(s) as int
    } else {
        s.len() as int
    };
    if s.take(n) == delim {
        Some(Seq::empty())
    } else if n >= s.len() {
        None
    } else {
        match spec_header_lines(s.skip(n + 1), delim) {
            None => None,
            Some(rest) => Some(Seq::empty().push(s.take(n)) + rest),
        }
    }
}

/// The metadata block at the head of the document: `---` fences around
/// colon-separated lines, or `+++` fences around equals-separated lines.
/// The flag says which of the two was found.
pub open spec fn spec_frontmatter_block(text: Seq<char>) -> Option<(Seq<Seq<char>>, bool)> {
    if text.len() >= 4 && text.take(4) == "---\n"@ {
        match spec_header_lines(text.skip(4), "---"@) {
            None => None,
            Some(lines) => Some((lines, false)),
        }
    } else if text.len() >= 4 && text.take(4) == "+++\n"@ {
        match spec_header_lines(text.skip(4), "+++"@) {
            None => None,
            Some(lines) => Some((lines, true)),
        }
    } else {
        None
    }
}

/// A value with one pair of surrounding double quotes removed, where both
/// are present.
pub open spec fn spec_unquote(v: Seq<char>) -> Seq<char> {
    if v.len() >= 2 && v[0] == '"' && v[v.len() - 1] == '"' {
        v.subrange(1, v.len() - 1)
    } else {
        v
    }
}

/// The value a metadata line assigns to `key`, if this line is the one:
/// `key: value` inside `---` fences, `key = value` inside `+++` fences.
pub open spec fn spec_line_value(line: Seq<char>, key: Seq<char>, toml: bool) -> Option<
    Seq<char>,
> {
    let prefix = if toml {
        key + " = "@
    } else {
        key + ": "@
    };
    if line.len() >= prefix.len() && line.take(prefix.len() as int) == prefix {
        Some(spec_unquote(line.skip(prefix.len() as int)))
    } else {
        None
    }
}

/// The value of the first line that assigns `key`.
pub open spec fn spec_find_value(lines: Seq<Seq<char>>, key: Seq<char>, toml: bool) -> Option<
    Seq<char>,
>
    decreases lines.len(),
{
    if lines.len() == 0 {
        None
    } else {
        match spec_line_value(lines[0], key, toml) {
            Some(v) => Some(v),
            None => spec_find_value(lines.skip(1), key, toml),
        }
    }
}

/// What frontmatter recovery yields on a whole document: the missing
/// error where no block opens and closes at the head; the malformed error
/// where a date key is present but carries no valid ISO date; otherwise
/// the three recovered fields, the kind left empty when its token is
/// unknown.
pub open spec fn spec_recover_frontmatter(text: Seq<char>) -> Result<ProtokollFrontmatter, Error> {
    match spec_frontmatter_block(text) {
        None => Err(Error::FrontmatterMissing),
        Some((lines, toml)) => {
            let dv = spec_find_value(lines, "date"@, toml);
            let lv = spec_find_value(lines, "lastmod"@, toml);
            let kv = spec_find_value(lines, "sitzung-kind"@, toml);
            let date_bad = match dv {
                Some(v) => spec_date_of_value(v) is None,
                None => false,
            };
            let lastmod_bad = match lv {
                Some(v) => spec_date_of_value(v) is None,
                None => false,
            };
            if date_bad || lastmod_bad {
                Err(Error::FrontmatterMalformed)
            } else {
                Ok(
                    ProtokollFrontmatter {
                        date: match dv {
                            Some(v) => spec_date_of_value(v),
                            None => None,
                        },
                        lastmod: match lv {
                            Some(v) => spec_date_of_value(v),
                            None => None,
                        },
                        sitzung_kind: match kv {
                            Some(v) => spec_kind_of_value(v),
                            None => None,
                        },
                    },
                )
            }
        },
    }
}

/// The lines of a collected block, each as its character sequence.
pub open spec fn lines_view(lines: Seq<String>) -> Seq<Seq<char>> {
    lines.map_values(|l: String| l@)
}

/// Appends a tail of lines to the ones already collected, passing a
/// missing tail through.
pub open spec fn glue_lines(acc: Seq<Seq<char>>, tail: Option<Seq<Seq<char>>>) -> Option<
    Seq<Seq<char>>,
> {
    match tail {
        None => None,
        Some(ls) => Some(acc + ls),
    }
}

/// The position of the next line break at or after `pos`.
fn scan_line_end(text: &str, pos: usize, total: usize) -> (k: usize)
    requires
        total == text@.len(),
        pos <= total,
    ensures
        pos <= k <= total,
        forall|j: int| pos <= j < k ==> text@[j] != '\n',
        k < total ==> text@[k as int] == '\n',
{
    let mut k = pos;
    while k < total
        invariant
            pos <= k <= total,
            total == text@.len(),
            forall|j: int| pos <= j < k ==> text@[j] != '\n',
        decreases total - k,
    {
        if text.get_char(k) == '\n' {
            return k;
        }
        k = k + 1;
    }
    k
}

/// Collects the metadata block's lines, telling the two fence styles
/// apart.
fn frontmatter_lines(text: &str) -> (r: Option<(Vec<String>, bool)>)
    ensures
        match r {
            None => spec_frontmatter_block(text@) is None,
            Some(p) => spec_frontmatter_block(text@) == Some((lines_view(p.0@), p.1)),
        },
{
    broadcast use Seq::lemma_push_map_commute;

    let total = text.unicode_len();
    let toml: bool;
    if starts_with(text, "---\n") {
        toml = false;
        proof {
            reveal_strlit("---\n");
        }
    } else if starts_with(text, "+++\n") {
        toml = true;
        proof {
            reveal_strlit("---\n");
            reveal_strlit("+++\n");
            assert("+++\n"@[0] != "---\n"@[0]) by {
                assert("+++\n"@[0] == '+');
                assert("---\n"@[0] == '-');
            }
        }
    } else {
        proof {
            reveal_strlit("---\n");
            reveal_strlit("+++\n");
        }
        return None;
    }
    let delim: &str = if toml {
        "+++"
    } else {
        "---"
    };
    let ghost dv: Seq<char> = if toml {
        "+++"@
    } else {
        "---"@
    };
    let mut lines: Vec<String> = Vec::new();
    let mut pos: usize = 4;
    proof {
        assert(lines_view(lines@) =~= Seq::<Seq<char>>::empty());
    }
    loop
        invariant
            4 <= pos <= total,
            total == text@.len(),
            delim@ == dv,
            toml ==> dv == "+++"@,
            !toml ==> dv == "---"@,
            toml ==> text@.take(4) == "+++\n"@,
            !toml ==> text@.take(4) == "---\n"@,
            toml ==> text@.take(4) != "---\n"@,
            spec_header_lines(text@.skip(4), dv) == glue_lines(
                lines_view(lines@),
                spec_header_lines(text@.skip(pos as int), dv),
            ),
        decreases total - pos,
    {
        let ghost rest = text@.skip(pos as int);
        let k = scan_line_end(text, pos, total);
        proof {
            assert forall|j: int| 0 <= j < k - pos implies rest[j] != '\n' by {
                assert(rest[j] == text@[pos + j]);
            }
            if k < total {
                assert(rest[k - pos] == text@[k as int]);
            }
            lemma_first_newline_at(rest, k - pos);
        }
        let line = text.substring_char(pos, k);
        proof {
            assert(line@ =~= rest.take(k - pos));
        }
        if str_eq(line, delim) {
            proof {
                assert(spec_header_lines(rest, dv) == Some(Seq::<Seq<char>>::empty()));
                assert(lines_view(lines@) + Seq::<Seq<char>>::empty() =~= lines_view(lines@));
                assert(spec_header_lines(text@.skip(4), dv) == Some(lines_view(lines@)));
            }
            return Some((lines, toml));
        }
        if k == total {
            proof {
                assert(spec_header_lines(rest, dv) is None);
            }
            return None;
        }
        let ghost acc0 = lines_view(lines@);
        lines.push(line.to_owned());
        proof {
            let n = k - pos;
            assert(rest.skip(n + 1) =~= text@.skip(k + 1));
            assert(spec_header_lines(rest, dv) == glue_lines(
                Seq::<Seq<char>>::empty().push(line@),
                spec_header_lines(rest.skip(n + 1), dv),
            ));
            assert(lines_view(lines@) =~= acc0.push(line@));
            match spec_header_lines(text@.skip(k + 1), dv) {
                None => {},
                Some(ls) => {
                    assert(acc0 + (Seq::<Seq<char>>::empty().push(line@) + ls) =~= acc0.push(
                        line@,
                    ) + ls);
                },
            }
        }
        pos = k + 1;
    }
}

/// The value this line assigns to `key`, if it is the line that does.
fn line_value(line: &str, key: &str, toml: bool) -> (r: Option<String>)
    ensures
        match r {
            None => spec_line_value(line@, key@, toml) is None,
            Some(v) => spec_line_value(line@, key@, toml) == Some(v@),
        },
{
    let mut prefix = String::from_str(key);
    if toml {
        prefix.append(" = ");
    } else {
        prefix.append(": ");
    }
    if starts_with(line, prefix.as_str()) {
        let plen = prefix.as_str().unicode_len();
        let llen = line.unicode_len();
        let v = line.substring_char(plen, llen);
        proof {
            assert(v@ =~= line@.skip(plen as int));
        }
        let vlen = v.unicode_len();
        if vlen >= 2 && v.get_char(0) == '"' && v.get_char(vlen - 1) == '"' {
            let inner = v.substring_char(1, vlen - 1);
            Some(inner.to_owned())
        } else {
            Some(v.to_owned())
        }
    } else {
        None
    }
}

/// The value of the first metadata line that assigns `key`.
fn find_value(lines: &Vec<String>, key: &str, toml: bool) -> (r: Option<String>)
    ensures
        match r {
            None => spec_find_value(lines_view(lines@), key@, toml) is None,
            Some(v) => spec_find_value(lines_view(lines@), key@, toml) == Some(v@),
        },
{
    let ghost all = lines_view(lines@);
    proof {
        assert(all.skip(0) =~= all);
    }
    let mut i: usize = 0;
    while i < lines.len()
        invariant
            0 <= i <= lines@.len(),
            all == lines_view(lines@),
            all.len() == lines@.len(),
            forall|j: int| 0 <= j < all.len() ==> all[j] == lines@[j]@,
            spec_find_value(all, key@, toml) == spec_find_value(all.skip(i as int), key@, toml),
        decreases lines@.len() - i,
    {
        let r = line_value(lines[i].as_str(), key, toml);
        proof {
            assert(all.skip(i as int)[0] == all[i as int]);
            assert(all.skip(i as int).skip(1) =~= all.skip(i as int + 1));
        }
        if let Some(v) = r {
            return Some(v);
        }
        i = i + 1;
    }
    proof {
        assert(all.skip(lines@.len() as int).len() == 0);
    }
    None
}

/// Recovers the structured metadata from the head of a document, as
/// `spec_recover_frontmatter` lays it down: a missing or never-closed
/// block is one error, a date key with an unreadable value another, and
/// an unknown kind token merely leaves the kind empty.
pub fn find_frontmatter(text: &str) -> (r: Result<ProtokollFrontmatter, Error>)
    ensures
        r == spec_recover_frontmatter(text@),
{
    let block = frontmatter_lines(text);
    match block {
        None => Err(Error::FrontmatterMissing),
        Some((lines, toml)) => {
            let date = match find_value(&lines, "date", toml) {
                Some(v) => {
                    match parse_date_iso(v.as_str()) {
                        Some(d) => {
                            proof {
                                lemma_date_of_value_some(v@, d);
                            }
                            Some(d)
                        },
                        None => {
                            return Err(Error::FrontmatterMalformed);
                        },
                    }
                },
                None => None,
            };
            let lastmod = match find_value(&lines, "lastmod", toml) {
                Some(v) => {
                    match parse_date_iso(v.as_str()) {
                        Some(d) => {
                            proof {
                                lemma_date_of_value_some(v@, d);
                            }
                            Some(d)
                        },
                        None => {
                            return Err(Error::FrontmatterMalformed);
                        },
                    }
                },
                None => None,
            };
            let sitzung_kind = match find_value(&lines, "sitzung-kind", toml) {
                Some(v) => {
                    match parse_sitzung_kind(v.as_str()) {
                        Some(k) => {
                            proof {
                                lemma_kind_of_value_some(v@, k);
                            }
                            Some(k)
                        },
                        None => None,
                    }
                },
                None => None,
            };
            Ok(ProtokollFrontmatter { date, lastmod, sitzung_kind })
        },
    }
}

/// The document title: the kind's own word, `vom`, and the date in its
/// human-readable form.
pub open spec fn spec_protokoll_title(s: Sitzung) -> Seq<char> {
    spec_title_prefix(s.kind) + " vom "@ + spec_date_german(s.datetime.date)
}

/// The date before which downstream consumers keep the draft hidden:
/// four calendar days after the meeting, or the meeting date itself where
/// that would leave the representable range.
pub open spec fn spec_hidden_until(d: Date) -> Date {
    match spec_add_days(d, 4) {
        Some(x) => x,
        None => d,
    }
}

/// One event line: day and month, title, time of day, location.
pub open spec fn spec_event_format(e: Event) -> Seq<char> {
    spec_day_month(e.start.date) + seq![' '] + (match e.title {
        Some(t) => t@,
        None => Seq::empty(),
    }) + seq![' '] + spec_hour_minute(e.start.time) + " Uhr "@ + (match e.location {
        Some(l) => l@,
        None => Seq::empty(),
    })
}

pub open spec fn spec_render_event(e: Event) -> Seq<char> {
    "- "@ + spec_event_format(e) + "\n"@
}

pub open spec fn render_event_fn() -> spec_fn(Event) -> Seq<char> {
    |e: Event| spec_render_event(e)
}

pub open spec fn spec_render_antrag(a: Antrag) -> Seq<char> {
    "#### "@ + a.titel@ + "\n\n"@ + a.antragstext@ + "\n\n"@ + a.begruendung@ + "\n\n"@
}

pub open spec fn render_antrag_fn() -> spec_fn(Antrag) -> Seq<char> {
    |a: Antrag| spec_render_antrag(a)
}

pub open spec fn spec_render_top(t: Top) -> Seq<char> {
    "### "@ + t.name@ + "\n\n"@ + t.inhalt@ + "\n\n"@ + concat_map(
        t.antraege@,
        render_antrag_fn(),
    )
}

pub open spec fn render_top_fn() -> spec_fn(Top) -> Seq<char> {
    |t: Top| spec_render_top(t)
}

pub open spec fn spec_render_rat(p: PersonWithAbmeldung) -> Seq<char> {
    "- "@ + spec_display_name(p) + (if p.abgemeldet {
        " (abgemeldet)"@
    } else if p.anwesend {
        " (anwesend)"@
    } else {
        Seq::empty()
    }) + "\n"@
}

pub open spec fn render_rat_fn() -> spec_fn(PersonWithAbmeldung) -> Seq<char> {
    |p: PersonWithAbmeldung| spec_render_rat(p)
}

/// A proposal submitted after the deadline.
pub open spec fn late_class(frist: DateTime) -> spec_fn(Antrag) -> bool {
    |a: Antrag| datetime_key(a.created_at) > datetime_key(frist)
}

pub open spec fn late_of_top_fn(frist: DateTime) -> spec_fn(Top) -> Seq<Antrag> {
    |t: Top| t.antraege@.filter(late_class(frist))
}

/// Every proposal across every agenda item whose creation time lies after
/// the meeting's proposal deadline, flattened, order preserved.
pub open spec fn spec_late_antraege(s: Sitzung) -> Seq<Antrag> {
    concat_map(s.tops@, late_of_top_fn(s.antragsfrist))
}

pub open spec fn spec_render_late(a: Antrag) -> Seq<char> {
    "- "@ + a.titel@ + "\n"@
}

pub open spec fn render_late_fn() -> spec_fn(Antrag) -> Seq<char> {
    |a: Antrag| spec_render_late(a)
}

/// The agenda items of the main section, in agenda order.
pub open spec fn tops_deref(ts: Seq<&Top>) -> Seq<Top> {
    ts.map_values(|t: &Top| *t)
}

pub fn normal_tops<'a>(tops: &'a Vec<Top>) -> (r: Vec<&'a Top>)
    ensures
        tops_deref(r@) == tops@.filter(kind_class(TopKind::Normal)),
{
    proof {
        broadcast use Seq::lemma_filter_push, Seq::lemma_take_succ_push, Seq::lemma_push_map_commute;

        assert(tops@.take(0).filter(kind_class(TopKind::Normal)) =~= Seq::<Top>::empty());
        assert(tops_deref(Seq::empty()) =~= Seq::<Top>::empty());
    }
    let mut result: Vec<&'a Top> = Vec::new();
    let mut i: usize = 0;
    while i < tops.len()
        invariant
            0 <= i <= tops@.len(),
            tops_deref(result@) == tops@.take(i as int).filter(kind_class(TopKind::Normal)),
        decreases tops@.len() - i,
    {
        proof {
            broadcast use Seq::lemma_filter_push, Seq::lemma_take_succ_push,
                Seq::lemma_push_map_commute;

        }
        let t = &tops[i];
        if t.kind == TopKind::Normal {
            result.push(t);
        }
        i = i + 1;
    }
    proof {
        assert(tops@.take(tops@.len() as int) =~= tops@);
    }
    result
}

pub open spec fn antraege_deref(s: Seq<&Antrag>) -> Seq<Antrag> {
    s.map_values(|a: &Antrag| *a)
}

/// The flattened list of proposals submitted after the deadline, in
/// agenda order.
pub fn nicht_fristgerechte_antraege<'a>(sitzung: &'a Sitzung) -> (r: Vec<&'a Antrag>)
    requires
        sitzung_valid(*sitzung),
    ensures
        antraege_deref(r@) == spec_late_antraege(*sitzung),
{
    proof {
        broadcast use Seq::lemma_filter_push, Seq::lemma_take_succ_push, Seq::lemma_push_map_commute;

        assert(concat_map(sitzung.tops@.take(0), late_of_top_fn(sitzung.antragsfrist))
            =~= Seq::<Antrag>::empty());
        assert(antraege_deref(Seq::empty()) =~= Seq::<Antrag>::empty());
    }
    let mut result: Vec<&'a Antrag> = Vec::new();
    let mut i: usize = 0;
    while i < sitzung.tops.len()
        invariant
            0 <= i <= sitzung.tops@.len(),
            sitzung_valid(*sitzung),
            antraege_deref(result@) == concat_map(
                sitzung.tops@.take(i as int),
                late_of_top_fn(sitzung.antragsfrist),
            ),
        decreases sitzung.tops@.len() - i,
    {
        let top = &sitzung.tops[i];
        let ghost before = result@;
        let mut j: usize = 0;
        while j < top.antraege.len()
            invariant
                0 <= j <= top.antraege@.len(),
                sitzung_valid(*sitzung),
                0 <= i < sitzung.tops@.len(),
                top == &sitzung.tops[i as int],
                antraege_deref(result@) == antraege_deref(before) + top.antraege@.take(
                    j as int,
                ).filter(late_class(sitzung.antragsfrist)),
            decreases top.antraege@.len() - j,
        {
            proof {
                broadcast use Seq::lemma_filter_push, Seq::lemma_take_succ_push,
                    Seq::lemma_push_map_commute;

            }
            let a = &top.antraege[j];
            if datetime_after(&a.created_at, &sitzung.antragsfrist) {
                result.push(a);
                proof {
                    assert(antraege_deref(result@) =~= antraege_deref(before)
                        + top.antraege@.take(j as int).filter(
                        late_class(sitzung.antragsfrist),
                    ).push(*a));
                }
            }
            j = j + 1;
        }
        proof {
            broadcast use Seq::lemma_take_succ_push;

            assert(top.antraege@.take(top.antraege@.len() as int) =~= top.antraege@);
            assert(sitzung.tops@.take(i + 1).drop_last() =~= sitzung.tops@.take(i as int));
            assert(late_of_top_fn(sitzung.antragsfrist)(sitzung.tops@[i as int])
                == top.antraege@.filter(late_class(sitzung.antragsfrist)));
        }
        i = i + 1;
    }
    proof {
        assert(sitzung.tops@.take(sitzung.tops@.len() as int) =~= sitzung.tops@);
    }
    result
}

/// The document title.
pub fn protokoll_title(sitzung: &Sitzung) -> (r: String)
    requires
        date_valid(sitzung.datetime.date),
    ensures
        r@ == spec_protokoll_title(*sitzung),
{
    let mut s = String::from_str(title_prefix(&sitzung.kind));
    s.append(" vom ");
    let date = format_date_german(&sitzung.datetime.date);
    s.append(date.as_str());
    proof {
        assert(s@ =~= spec_protokoll_title(*sitzung));
    }
    s
}

/// The publication gate for downstream consumers: the meeting date plus
/// four calendar days.
pub fn hidden_until_date(datetime: &DateTime) -> (r: Date)
    requires
        datetime_valid(*datetime),
    ensures
        r == spec_hidden_until(datetime.date),
        date_valid(r),
{
    proof {
        lemma_spec_add_days_valid(datetime.date, 4);
    }
    match add_days(datetime.date, 4) {
        Some(d) => d,
        None => datetime.date,
    }
}

/// One event line: day and month, title, time of day, location.
pub fn event_format(event: &Event) -> (r: String)
    requires
        event_valid(*event),
    ensures
        r@ == spec_event_format(*event),
{
    let mut s = format_day_month(&event.start.date);
    s.append(" ");
    match &event.title {
        Some(t) => s.append(t.as_str()),
        None => (),
    }
    s.append(" ");
    let hm = format_hour_minute(&event.start.time);
    s.append(hm.as_str());
    s.append(" Uhr ");
    match &event.location {
        Some(l) => s.append(l.as_str()),
        None => (),
    }
    proof {
        reveal_strlit(" ");
        assert(" "@ =~= seq![' ']);
        assert(s@ =~= spec_event_format(*event));
    }
    s
}

/// The immutable render model: the meeting with its agenda, the
/// reconciled roster, and the calendar events. Built once per run, pure
/// composition, no defaulting — any list may be empty.
#[derive(PartialEq, Eq, Debug)]
pub struct ProtokollTemplate {
    pub sitzung: Sitzung,
    pub raete: Vec<PersonWithAbmeldung>,
    pub events: Vec<Event>,
}

pub open spec fn template_valid(m: ProtokollTemplate) -> bool {
    &&& sitzung_valid(m.sitzung)
    &&& forall|i: int| 0 <= i < m.events@.len() ==> event_valid(#[trigger] m.events@[i])
}

/// Pure composition of the already-fetched parts into the render model.
pub fn build_protokoll_template(
    sitzung: Sitzung,
    raete: Vec<PersonWithAbmeldung>,
    events: Vec<Event>,
) -> (r: ProtokollTemplate)
    ensures
        r.sitzung == sitzung,
        r.raete == raete,
        r.events == events,
{
    ProtokollTemplate { sitzung, raete, events }
}

/// The six metadata lines the renderer writes, each with its newline.
pub open spec fn spec_title_line(s: Sitzung) -> Seq<char> {
    "title: \""@ + spec_protokoll_title(s) + "\"\n"@
}

pub open spec fn spec_date_line(s: Sitzung) -> Seq<char> {
    "date: \""@ + spec_date_iso(s.datetime.date) + "\"\n"@
}

pub open spec fn spec_hidden_line(s: Sitzung) -> Seq<char> {
    "hidden-until: \""@ + spec_date_iso(spec_hidden_until(s.datetime.date)) + "\"\n"@
}

pub open spec fn spec_kind_line(s: Sitzung) -> Seq<char> {
    "sitzung-kind: \""@ + spec_kind_token(s.kind) + "\"\n"@
}

pub open spec fn spec_id_line(s: Sitzung) -> Seq<char> {
    "sitzung-id: \""@ + s.id@ + "\"\n"@
}

pub open spec fn spec_machine_line(s: Sitzung) -> Seq<char> {
    "date-machine: \""@ + spec_datetime_machine(s.datetime) + "\"\n"@
}

/// The fenced metadata block the renderer writes at the head.
pub open spec fn spec_render_frontmatter(m: ProtokollTemplate) -> Seq<char> {
    "---\n"@ + spec_title_line(m.sitzung) + spec_date_line(m.sitzung) + spec_hidden_line(
        m.sitzung,
    ) + spec_kind_line(m.sitzung) + spec_id_line(m.sitzung) + spec_machine_line(m.sitzung)
        + "---\n"@
}

/// The document body: title heading, attendance and quorum lines, the
/// roster, the events, the two agenda sections split by kind in agenda
/// order, and the list of proposals submitted after the deadline.
pub open spec fn spec_render_body(m: ProtokollTemplate) -> Seq<char> {
    "\n# "@ + spec_protokoll_title(m.sitzung) + "\n\nanwesende R\u{e4}te: "@
        + spec_anwesende_label(m.raete@) + "\n"@ + spec_quorum_label(m.raete@) + "\n\n"@
        + concat_map(m.raete@, render_rat_fn()) + "\n## Events\n\n"@ + concat_map(
        m.events@,
        render_event_fn(),
    ) + "\n## Tops\n\n"@ + concat_map(
        m.sitzung.tops@.filter(kind_class(TopKind::Normal)),
        render_top_fn(),
    ) + "## Verschiedenes\n\n"@ + concat_map(
        m.sitzung.tops@.filter(kind_class(TopKind::Verschiedenes)),
        render_top_fn(),
    ) + "## Nicht fristgerechte Antr\u{e4}ge\n\n"@ + concat_map(
        spec_late_antraege(m.sitzung),
        render_late_fn(),
    )
}

/// The whole document, byte for byte. Rendering is a function of the
/// model alone, so re-rendering the same model is byte-identical.
pub open spec fn spec_render(m: ProtokollTemplate) -> Seq<char> {
    spec_render_frontmatter(m) + spec_render_body(m)
}

fn render_antrag(a: &Antrag) -> (r: String)
    ensures
        r@ == spec_render_antrag(*a),
{
    let mut s = String::from_str("#### ");
    s.append(a.titel.as_str());
    s.append("\n\n");
    s.append(a.antragstext.as_str());
    s.append("\n\n");
    s.append(a.begruendung.as_str());
    s.append("\n\n");
    proof {
        assert(s@ =~= spec_render_antrag(*a));
    }
    s
}

fn render_top(t: &Top) -> (r: String)
    ensures
        r@ == spec_render_top(*t),
{
    let mut s = String::from_str("### ");
    s.append(t.name.as_str());
    s.append("\n\n");
    s.append(t.inhalt.as_str());
    s.append("\n\n");
    let ghost head = s@;
    proof {
        assert(t.antraege@.take(0) =~= Seq::<Antrag>::empty());
        assert(s@ =~= head + concat_map(t.antraege@.take(0), render_antrag_fn()));
    }
    let mut j: usize = 0;
    while j < t.antraege.len()
        invariant
            0 <= j <= t.antraege@.len(),
            s@ == head + concat_map(t.antraege@.take(j as int), render_antrag_fn()),
        decreases t.antraege@.len() - j,
    {
        let part = render_antrag(&t.antraege[j]);
        s.append(part.as_str());
        proof {
            assert(t.antraege@.take(j + 1).drop_last() =~= t.antraege@.take(j as int));
            assert(t.antraege@.take(j + 1).last() == t.antraege@[j as int]);
            assert(s@ =~= head + concat_map(t.antraege@.take(j + 1), render_antrag_fn()));
        }
        j = j + 1;
    }
    proof {
        assert(t.antraege@.take(t.antraege@.len() as int) =~= t.antraege@);
        assert(s@ =~= spec_render_top(*t));
    }
    s
}

fn render_tops_section(tops: &Vec<Top>, kind: TopKind) -> (r: String)
    ensures
        r@ == concat_map(tops@.filter(kind_class(kind)), render_top_fn()),
{
    let mut s = String::new();
    proof {
        broadcast use Seq::lemma_filter_push, Seq::lemma_take_succ_push;

        assert(tops@.take(0).filter(kind_class(kind)) =~= Seq::<Top>::empty());
    }
    let mut i: usize = 0;
    while i < tops.len()
        invariant
            0 <= i <= tops@.len(),
            s@ == concat_map(tops@.take(i as int).filter(kind_class(kind)), render_top_fn()),
        decreases tops@.len() - i,
    {
        proof {
            broadcast use Seq::lemma_filter_push, Seq::lemma_take_succ_push;

        }
        let t = &tops[i];
        if t.kind == kind {
            let part = render_top(t);
            s.append(part.as_str());
            proof {
                let cls = tops@.take(i as int).filter(kind_class(kind));
                assert(cls.push(tops@[i as int]).drop_last() =~= cls);
                assert(s@ =~= concat_map(
                    tops@.take(i + 1).filter(kind_class(kind)),
                    render_top_fn(),
                ));
            }
        }
        i = i + 1;
    }
    proof {
        assert(tops@.take(tops@.len() as int) =~= tops@);
    }
    s
}

fn render_raete_section(raete: &Vec<PersonWithAbmeldung>) -> (r: String)
    ensures
        r@ == concat_map(raete@, render_rat_fn()),
{
    let mut s = String::new();
    proof {
        assert(raete@.take(0) =~= Seq::<PersonWithAbmeldung>::empty());
    }
    let mut i: usize = 0;
    while i < raete.len()
        invariant
            0 <= i <= raete@.len(),
            s@ == concat_map(raete@.take(i as int), render_rat_fn()),
        decreases raete@.len() - i,
    {
        let p = &raete[i];
        s.append("- ");
        let name = p.display_name();
        s.append(name.as_str());
        if p.abgemeldet {
            s.append(" (abgemeldet)");
        } else if p.anwesend {
            s.append(" (anwesend)");
        }
        s.append("\n");
        proof {
            assert(raete@.take(i + 1).drop_last() =~= raete@.take(i as int));
            assert(raete@.take(i + 1).last() == raete@[i as int]);
            assert(s@ =~= concat_map(raete@.take(i + 1), render_rat_fn()));
        }
        i = i + 1;
    }
    proof {
        assert(raete@.take(raete@.len() as int) =~= raete@);
    }
    s
}

fn render_events_section(events: &Vec<Event>) -> (r: String)
    requires
        forall|i: int| 0 <= i < events@.len() ==> event_valid(#[trigger] events@[i]),
    ensures
        r@ == concat_map(events@, render_event_fn()),
{
    let mut s = String::new();
    proof {
        assert(events@.take(0) =~= Seq::<Event>::empty());
    }
    let mut i: usize = 0;
    while i < events.len()
        invariant
            0 <= i <= events@.len(),
            forall|j: int| 0 <= j < events@.len() ==> event_valid(#[trigger] events@[j]),
            s@ == concat_map(events@.take(i as int), render_event_fn()),
        decreases events@.len() - i,
    {
        s.append("- ");
        let line = event_format(&events[i]);
        s.append(line.as_str());
        s.append("\n");
        proof {
            assert(events@.take(i + 1).drop_last() =~= events@.take(i as int));
            assert(events@.take(i + 1).last() == events@[i as int]);
            assert(s@ =~= concat_map(events@.take(i + 1), render_event_fn()));
        }
        i = i + 1;
    }
    proof {
        assert(events@.take(events@.len() as int) =~= events@);
    }
    s
}

fn render_late_section(sitzung: &Sitzung) -> (r: String)
    requires
        sitzung_valid(*sitzung),
    ensures
        r@ == concat_map(spec_late_antraege(*sitzung), render_late_fn()),
{
    let late = nicht_fristgerechte_antraege(sitzung);
    let ghost all = spec_late_antraege(*sitzung);
    let mut s = String::new();
    proof {
        assert(all.take(0) =~= Seq::<Antrag>::empty());
    }
    let mut i: usize = 0;
    while i < late.len()
        invariant
            0 <= i <= late@.len(),
            antraege_deref(late@) == all,
            all.len() == late@.len(),
            s@ == concat_map(all.take(i as int), render_late_fn()),
        decreases late@.len() - i,
    {
        proof {
            assert(all[i as int] == *late@[i as int]);
        }
        s.append("- ");
        s.append(late[i].titel.as_str());
        s.append("\n");
        proof {
            assert(all.take(i + 1).drop_last() =~= all.take(i as int));
            assert(all.take(i + 1).last() == all[i as int]);
            assert(s@ =~= concat_map(all.take(i + 1), render_late_fn()));
        }
        i = i + 1;
    }
    proof {
        assert(all.take(all.len() as int) =~= all);
    }
    s
}

impl ProtokollTemplate {
    /// Deterministic, total, side-effect-free rendering of the model into
    /// the canonical document text. The contract pins the text down
    /// completely, so two renderings of equal models are byte-identical.
    #[verifier::rlimit(90)]
    pub fn render(&self) -> (r: String)
        requires
            template_valid(*self),
        ensures
            r@ == spec_render(*self),
    {
        let title = protokoll_title(&self.sitzung);
        let mut s = String::from_str("---\n");
        // metadata block
        s.append("title: \"");
        s.append(title.as_str());
        s.append("\"\n");
        s.append("date: \"");
        let date_iso = crate::datetime::format_date_iso(&self.sitzung.datetime.date);
        s.append(date_iso.as_str());
        s.append("\"\n");
        s.append("hidden-until: \"");
        let hidden = hidden_until_date(&self.sitzung.datetime);
        let hidden_iso = crate::datetime::format_date_iso(&hidden);
        s.append(hidden_iso.as_str());
        s.append("\"\n");
        s.append("sitzung-kind: \"");
        s.append(kind_token(&self.sitzung.kind));
        s.append("\"\n");
        s.append("sitzung-id: \"");
        s.append(self.sitzung.id.as_str());
        s.append("\"\n");
        s.append("date-machine: \"");
        let machine = format_datetime_machine(&self.sitzung.datetime);
        s.append(machine.as_str());
        s.append("\"\n");
        s.append("---\n");
        proof {
            assert(s@ =~= spec_render_frontmatter(*self));
        }
        // body
        let mut b = String::from_str("\n# ");
        b.append(title.as_str());
        b.append("\n\nanwesende R\u{e4}te: ");
        let count_label = crate::protokoll::person::anwesende_raete_label(&self.raete);
        b.append(count_label.as_str());
        b.append("\n");
        let quorum_label = crate::protokoll::person::beschlussfaehig_label(&self.raete);
        b.append(quorum_label.as_str());
        b.append("\n\n");
        let raete_part = render_raete_section(&self.raete);
        b.append(raete_part.as_str());
        b.append("\n## Events\n\n");
        let events_part = render_events_section(&self.events);
        b.append(events_part.as_str());
        b.append("\n## Tops\n\n");
        let tops_part = render_tops_section(&self.sitzung.tops, TopKind::Normal);
        b.append(tops_part.as_str());
        b.append("## Verschiedenes\n\n");
        let misc_part = render_tops_section(&self.sitzung.tops, TopKind::Verschiedenes);
        b.append(misc_part.as_str());
        b.append("## Nicht fristgerechte Antr\u{e4}ge\n\n");
        let late_part = render_late_section(&self.sitzung);
        b.append(late_part.as_str());
        proof {
            assert(b@ =~= spec_render_body(*self));
        }
        s.append(b.as_str());
        s
    }
}

/// The six metadata lines without their trailing newline, as the block
/// scanner hands them out.
pub open spec fn spec_title_content(s: Sitzung) -> Seq<char> {
    "title: \""@ + spec_protokoll_title(s) + "\""@
}

pub open spec fn spec_date_content(s: Sitzung) -> Seq<char> {
    "date: \""@ + spec_date_iso(s.datetime.date) + "\""@
}

pub open spec fn spec_hidden_content(s: Sitzung) -> Seq<char> {
    "hidden-until: \""@ + spec_date_iso(spec_hidden_until(s.datetime.date)) + "\""@
}

pub open spec fn spec_kind_content(s: Sitzung) -> Seq<char> {
    "sitzung-kind: \""@ + spec_kind_token(s.kind) + "\""@
}

pub open spec fn spec_id_content(s: Sitzung) -> Seq<char> {
    "sitzung-id: \""@ + s.id@ + "\""@
}

pub open spec fn spec_machine_content(s: Sitzung) -> Seq<char> {
    "date-machine: \""@ + spec_datetime_machine(s.datetime) + "\""@
}

pub open spec fn spec_header_contents(s: Sitzung) -> Seq<Seq<char>> {
    seq![
        spec_title_content(s),
        spec_date_content(s),
        spec_hidden_content(s),
        spec_kind_content(s),
        spec_id_content(s),
        spec_machine_content(s),
    ]
}

/// One newline-free line that is not the closing fence, followed by the
/// rest: the scanner takes the line off the front.
proof fn lemma_header_lines_cons(l: Seq<char>, tail: Seq<char>, delim: Seq<char>)
    requires
        forall|j: int| 0 <= j < l.len() ==> l[j] != '\n',
        l != delim,
    ensures
        spec_header_lines(l + seq!['\n'] + tail, delim) == glue_lines(
            Seq::empty().push(l),
            spec_header_lines(tail, delim),
        ),
{
    let s = l + seq!['\n'] + tail;
    assert forall|j: int| 0 <= j < l.len() implies s[j] != '\n' by {
        assert(s[j] == l[j]);
    }
    assert(s[l.len() as int] == '\n');
    lemma_first_newline_at(s, l.len() as int);
    assert(s.take(l.len() as int) =~= l);
    assert(s.skip(l.len() as int + 1) =~= tail);
}

/// The closing fence line ends the scan whatever follows it.
proof fn lemma_header_lines_end(tail: Seq<char>, delim: Seq<char>)
    requires
        forall|j: int| 0 <= j < delim.len() ==> delim[j] != '\n',
    ensures
        spec_header_lines(delim + seq!['\n'] + tail, delim) == Some(Seq::<Seq<char>>::empty()),
{
    let s = delim + seq!['\n'] + tail;
    assert forall|j: int| 0 <= j < delim.len() implies s[j] != '\n' by {
        assert(s[j] == delim[j]);
    }
    assert(s[delim.len() as int] == '\n');
    lemma_first_newline_at(s, delim.len() as int);
    assert(s.take(delim.len() as int) =~= delim);
}

/// A line whose character at `i` differs from the key prefix assigns
/// nothing to the key.
proof fn lemma_line_value_none(line: Seq<char>, key: Seq<char>, i: int)
    requires
        0 <= i < (key + ": "@).len(),
        i < line.len(),
        line[i] != (key + ": "@)[i],
    ensures
        spec_line_value(line, key, false) is None,
{
    let p = key + ": "@;
    if line.len() >= p.len() {
        assert(line.take(p.len() as int)[i] == line[i]);
    }
}

/// A line of the renderer's own quoted shape assigns its unquoted value.
proof fn lemma_line_value_quoted(x: Seq<char>, key: Seq<char>)
    ensures
        spec_line_value(key + ": "@ + seq!['"'] + x + seq!['"'], key, false) == Some(x),
{
    let p = key + ": "@;
    let line = key + ": "@ + seq!['"'] + x + seq!['"'];
    let v = seq!['"'] + x + seq!['"'];
    assert(line.len() == p.len() + x.len() + 2);
    assert(line.take(p.len() as int) =~= p);
    assert(line.skip(p.len() as int) =~= v);
    assert(v[0] == '"');
    assert(v[v.len() - 1] == '"');
    assert(spec_unquote(v) =~= x);
}

/// A metadata line is newline-free and is not the closing fence.
pub open spec fn safe_header_line(c: Seq<char>) -> bool {
    (forall|j: int| 0 <= j < c.len() ==> c[j] != '\n') && c != "---"@
}

/// None of the six rendered metadata lines contains a newline or reads
/// as the closing fence.
proof fn lemma_header_contents_safe(s: Sitzung)
    requires
        sitzung_valid(s),
    ensures
        safe_header_line(spec_title_content(s)),
        safe_header_line(spec_date_content(s)),
        safe_header_line(spec_hidden_content(s)),
        safe_header_line(spec_kind_content(s)),
        safe_header_line(spec_id_content(s)),
        safe_header_line(spec_machine_content(s)),
{
    let c1 = spec_title_content(s);
    let c2 = spec_date_content(s);
    let c3 = spec_hidden_content(s);
    let c4 = spec_kind_content(s);
    let c5 = spec_id_content(s);
    let c6 = spec_machine_content(s);
    reveal_strlit("---");
    reveal_strlit("\"");
    reveal_strlit("title: \"");
    reveal_strlit("date: \"");
    reveal_strlit("hidden-until: \"");
    reveal_strlit("sitzung-kind: \"");
    reveal_strlit("sitzung-id: \"");
    reveal_strlit("date-machine: \"");
    reveal_strlit(" vom ");
    lemma_title_prefix_no_newline(s.kind);
    lemma_kind_token_no_newline(s.kind);
    lemma_date_german_no_newline(s.datetime.date);
    lemma_date_iso_no_newline(s.datetime.date);
    lemma_date_iso_no_newline(spec_hidden_until(s.datetime.date));
    lemma_machine_no_newline(s.datetime);
    assert("\""@ =~= seq!['"']);
    assert(c1[0] == 't');
    assert(c2[0] == 'd');
    assert(c3[0] == 'h');
    assert(c4[0] == 's');
    assert(c5[0] == 's');
    assert(c6[0] == 'd');
    assert("---"@[0] == '-');
    assert forall|j: int| 0 <= j < c1.len() implies c1[j] != '\n' by {}
    assert forall|j: int| 0 <= j < c2.len() implies c2[j] != '\n' by {}
    assert forall|j: int| 0 <= j < c3.len() implies c3[j] != '\n' by {}
    assert forall|j: int| 0 <= j < c4.len() implies c4[j] != '\n' by {}
    assert forall|j: int| 0 <= j < c5.len() implies c5[j] != '\n' by {}
    assert forall|j: int| 0 <= j < c6.len() implies c6[j] != '\n' by {}
}

/// The rendered document regrouped as an opening fence and one
/// line-plus-rest nest per metadata line.
#[verifier::rlimit(100)]
proof fn lemma_render_split(m: ProtokollTemplate)
    requires
        template_valid(m),
    ensures
        spec_render(m).len() >= 4,
        spec_render(m).take(4) == "---\n"@,
        spec_render(m).skip(4) == spec_title_content(m.sitzung) + seq!['\n'] + (spec_date_content(
            m.sitzung,
        ) + seq!['\n'] + (spec_hidden_content(m.sitzung) + seq!['\n'] + (spec_kind_content(
            m.sitzung,
        ) + seq!['\n'] + (spec_id_content(m.sitzung) + seq!['\n'] + (spec_machine_content(
            m.sitzung,
        ) + seq!['\n'] + ("---"@ + seq!['\n'] + spec_render_body(m))))))),
{
    let s = m.sitzung;
    let text = spec_render(m);
    let body = spec_render_body(m);
    let t7 = "---"@ + seq!['\n'] + body;
    let t6 = spec_machine_content(s) + seq!['\n'] + t7;
    let t5 = spec_id_content(s) + seq!['\n'] + t6;
    let t4 = spec_kind_content(s) + seq!['\n'] + t5;
    let t3 = spec_hidden_content(s) + seq!['\n'] + t4;
    let t2 = spec_date_content(s) + seq!['\n'] + t3;
    let t1 = spec_title_content(s) + seq!['\n'] + t2;
    reveal_strlit("---\n");
    reveal_strlit("---");
    reveal_strlit("\"\n");
    reveal_strlit("\"");
    assert("---\n"@ =~= seq!['-', '-', '-', '\n']);
    assert("---"@ =~= seq!['-', '-', '-']);
    assert("\"\n"@ =~= seq!['"', '\n']);
    assert("\""@ =~= seq!['"']);
    assert(spec_title_line(s) =~= spec_title_content(s) + seq!['\n']);
    assert(spec_date_line(s) =~= spec_date_content(s) + seq!['\n']);
    assert(spec_hidden_line(s) =~= spec_hidden_content(s) + seq!['\n']);
    assert(spec_kind_line(s) =~= spec_kind_content(s) + seq!['\n']);
    assert(spec_id_line(s) =~= spec_id_content(s) + seq!['\n']);
    assert(spec_machine_line(s) =~= spec_machine_content(s) + seq!['\n']);
    assert(text =~= "---\n"@ + t1);
    assert(text.take(4) =~= "---\n"@);
    assert(text.skip(4) =~= t1);
}

/// The scanner takes a rendered document apart into exactly the six
/// metadata lines the renderer wrote.
#[verifier::rlimit(100)]
proof fn lemma_roundtrip_header(m: ProtokollTemplate)
    requires
        template_valid(m),
    ensures
        spec_frontmatter_block(spec_render(m)) == Some((spec_header_contents(m.sitzung), false)),
{
    let s = m.sitzung;
    let text = spec_render(m);
    let body = spec_render_body(m);
    let c1 = spec_title_content(s);
    let c2 = spec_date_content(s);
    let c3 = spec_hidden_content(s);
    let c4 = spec_kind_content(s);
    let c5 = spec_id_content(s);
    let c6 = spec_machine_content(s);
    let t7 = "---"@ + seq!['\n'] + body;
    let t6 = c6 + seq!['\n'] + t7;
    let t5 = c5 + seq!['\n'] + t6;
    let t4 = c4 + seq!['\n'] + t5;
    let t3 = c3 + seq!['\n'] + t4;
    let t2 = c2 + seq!['\n'] + t3;
    let t1 = c1 + seq!['\n'] + t2;
    lemma_header_contents_safe(s);
    lemma_render_split(m);
    reveal_strlit("---");
    assert forall|j: int| 0 <= j < "---"@.len() implies "---"@[j] != '\n' by {}
    lemma_header_lines_end(body, "---"@);
    lemma_header_lines_cons(c6, t7, "---"@);
    lemma_header_lines_cons(c5, t6, "---"@);
    lemma_header_lines_cons(c4, t5, "---"@);
    lemma_header_lines_cons(c3, t4, "---"@);
    lemma_header_lines_cons(c2, t3, "---"@);
    lemma_header_lines_cons(c1, t2, "---"@);
    assert(spec_header_lines(t6, "---"@) == Some(Seq::empty().push(c6))) by {
        assert(Seq::empty().push(c6) + Seq::<Seq<char>>::empty() =~= Seq::empty().push(c6));
    }
    assert(spec_header_lines(t5, "---"@) == Some(seq![c5, c6])) by {
        assert(Seq::empty().push(c5) + Seq::empty().push(c6) =~= seq![c5, c6]);
    }
    assert(spec_header_lines(t4, "---"@) == Some(seq![c4, c5, c6])) by {
        assert(Seq::empty().push(c4) + seq![c5, c6] =~= seq![c4, c5, c6]);
    }
    assert(spec_header_lines(t3, "---"@) == Some(seq![c3, c4, c5, c6])) by {
        assert(Seq::empty().push(c3) + seq![c4, c5, c6] =~= seq![c3, c4, c5, c6]);
    }
    assert(spec_header_lines(t2, "---"@) == Some(seq![c2, c3, c4, c5, c6])) by {
        assert(Seq::empty().push(c2) + seq![c3, c4, c5, c6] =~= seq![c2, c3, c4, c5, c6]);
    }
    assert(spec_header_lines(t1, "---"@) == Some(spec_header_contents(s))) by {
        assert(Seq::empty().push(c1) + seq![c2, c3, c4, c5, c6] =~= spec_header_contents(s));
    }
    assert(spec_frontmatter_block(text) == Some((spec_header_contents(s), false)));
}

/// The first characters of the six rendered lines, which tell the key
/// lookups apart.
proof fn lemma_content_first_chars(s: Sitzung)
    ensures
        spec_title_content(s)[0] == 't',
        spec_date_content(s)[0] == 'd',
        spec_hidden_content(s)[0] == 'h',
        spec_kind_content(s)[0] == 's',
        spec_id_content(s)[0] == 's',
        spec_machine_content(s)[0] == 'd',
        spec_title_content(s).len() > 0,
        spec_date_content(s).len() > 0,
        spec_hidden_content(s).len() > 0,
        spec_kind_content(s).len() > 0,
        spec_id_content(s).len() > 0,
        spec_machine_content(s).len() > 0,
{
    reveal_strlit("title: \"");
    reveal_strlit("date: \"");
    reveal_strlit("hidden-until: \"");
    reveal_strlit("sitzung-kind: \"");
    reveal_strlit("sitzung-id: \"");
    reveal_strlit("date-machine: \"");
}

proof fn lemma_find_date(s: Sitzung)
    ensures
        spec_find_value(spec_header_contents(s), "date"@, false) == Some(
            spec_date_iso(s.datetime.date),
        ),
{
    let ls = spec_header_contents(s);
    let c1 = spec_title_content(s);
    let c2 = spec_date_content(s);
    let c3 = spec_hidden_content(s);
    let c4 = spec_kind_content(s);
    let c5 = spec_id_content(s);
    let c6 = spec_machine_content(s);
    let kd = "date"@;
    lemma_content_first_chars(s);
    reveal_strlit("date");
    reveal_strlit("date: \"");
    reveal_strlit(": ");
    reveal_strlit("\"");
    assert("\""@ =~= seq!['"']);
    assert((kd + ": "@)[0] == 'd');
    lemma_line_value_none(c1, kd, 0);
    assert(c2 =~= kd + ": "@ + seq!['"'] + spec_date_iso(s.datetime.date) + seq!['"']);
    lemma_line_value_quoted(spec_date_iso(s.datetime.date), kd);
    assert(ls.skip(1) =~= seq![c2, c3, c4, c5, c6]);
    assert(spec_find_value(seq![c2, c3, c4, c5, c6], kd, false) == Some(
        spec_date_iso(s.datetime.date),
    ));
    assert(spec_find_value(ls, kd, false) == Some(spec_date_iso(s.datetime.date)));
}

proof fn lemma_find_lastmod(s: Sitzung)
    ensures
        spec_find_value(spec_header_contents(s), "lastmod"@, false) is None,
{
    let ls = spec_header_contents(s);
    let c1 = spec_title_content(s);
    let c2 = spec_date_content(s);
    let c3 = spec_hidden_content(s);
    let c4 = spec_kind_content(s);
    let c5 = spec_id_content(s);
    let c6 = spec_machine_content(s);
    let kl = "lastmod"@;
    lemma_content_first_chars(s);
    reveal_strlit("lastmod");
    reveal_strlit(": ");
    assert((kl + ": "@)[0] == 'l');
    lemma_line_value_none(c1, kl, 0);
    lemma_line_value_none(c2, kl, 0);
    lemma_line_value_none(c3, kl, 0);
    lemma_line_value_none(c4, kl, 0);
    lemma_line_value_none(c5, kl, 0);
    lemma_line_value_none(c6, kl, 0);
    assert(ls.skip(1) =~= seq![c2, c3, c4, c5, c6]);
    assert(seq![c2, c3, c4, c5, c6].skip(1) =~= seq![c3, c4, c5, c6]);
    assert(seq![c3, c4, c5, c6].skip(1) =~= seq![c4, c5, c6]);
    assert(seq![c4, c5, c6].skip(1) =~= seq![c5, c6]);
    assert(seq![c5, c6].skip(1) =~= seq![c6]);
    assert(seq![c6].skip(1) =~= Seq::<Seq<char>>::empty());
    assert(spec_find_value(Seq::<Seq<char>>::empty(), kl, false) is None);
    assert(spec_find_value(seq![c6], kl, false) is None);
    assert(spec_find_value(seq![c5, c6], kl, false) is None);
    assert(spec_find_value(seq![c4, c5, c6], kl, false) is None);
    assert(spec_find_value(seq![c3, c4, c5, c6], kl, false) is None);
    assert(spec_find_value(seq![c2, c3, c4, c5, c6], kl, false) is None);
    assert(spec_find_value(ls, kl, false) is None);
}

proof fn lemma_find_kind(s: Sitzung)
    ensures
        spec_find_value(spec_header_contents(s), "sitzung-kind"@, false) == Some(
            spec_kind_token(s.kind),
        ),
{
    let ls = spec_header_contents(s);
    let c1 = spec_title_content(s);
    let c2 = spec_date_content(s);
    let c3 = spec_hidden_content(s);
    let c4 = spec_kind_content(s);
    let c5 = spec_id_content(s);
    let c6 = spec_machine_content(s);
    let kk = "sitzung-kind"@;
    lemma_content_first_chars(s);
    reveal_strlit("sitzung-kind");
    reveal_strlit("sitzung-kind: \"");
    reveal_strlit(": ");
    reveal_strlit("\"");
    assert("\""@ =~= seq!['"']);
    assert((kk + ": "@)[0] == 's');
    lemma_line_value_none(c1, kk, 0);
    lemma_line_value_none(c2, kk, 0);
    lemma_line_value_none(c3, kk, 0);
    assert(c4 =~= kk + ": "@ + seq!['"'] + spec_kind_token(s.kind) + seq!['"']);
    lemma_line_value_quoted(spec_kind_token(s.kind), kk);
    assert(ls.skip(1) =~= seq![c2, c3, c4, c5, c6]);
    assert(seq![c2, c3, c4, c5, c6].skip(1) =~= seq![c3, c4, c5, c6]);
    assert(seq![c3, c4, c5, c6].skip(1) =~= seq![c4, c5, c6]);
    assert(spec_find_value(seq![c4, c5, c6], kk, false) == Some(spec_kind_token(s.kind)));
    assert(spec_find_value(seq![c3, c4, c5, c6], kk, false) == Some(spec_kind_token(s.kind)));
    assert(spec_find_value(seq![c2, c3, c4, c5, c6], kk, false) == Some(spec_kind_token(s.kind)));
    assert(spec_find_value(ls, kk, false) == Some(spec_kind_token(s.kind)));
}

/// Round trip: recovery on a rendered document returns exactly the date
/// and kind of the model it was rendered from — so an exported document,
/// read back and recovered, computes the same storage path it was
/// written to.
pub proof fn lemma_render_roundtrip(m: ProtokollTemplate)
    requires
        template_valid(m),
    ensures
        spec_recover_frontmatter(spec_render(m)) == Result::<ProtokollFrontmatter, Error>::Ok(
            ProtokollFrontmatter {
                date: Some(m.sitzung.datetime.date),
                lastmod: None,
                sitzung_kind: Some(m.sitzung.kind),
            },
        ),
{
    lemma_roundtrip_header(m);
    lemma_find_date(m.sitzung);
    lemma_find_lastmod(m.sitzung);
    lemma_find_kind(m.sitzung);
    lemma_date_of_value_some(spec_date_iso(m.sitzung.datetime.date), m.sitzung.datetime.date);
    lemma_kind_of_value_some(spec_kind_token(m.sitzung.kind), m.sitzung.kind);
}

/// The creation date of an imported document: the `date` field, or the
/// `lastmod` field where `date` is absent; an error where the metadata
/// carries neither.
pub fn find_protokoll_date(frontmatter: &ProtokollFrontmatter) -> (r: Result<Date, Error>)
    ensures
        frontmatter.date matches Some(d) ==> r == Result::<Date, Error>::Ok(d),
        frontmatter.date is None ==> (frontmatter.lastmod matches Some(d) ==> r == Result::<
            Date,
            Error,
        >::Ok(d)),
        frontmatter.date is None && frontmatter.lastmod is None ==> r == Result::<
            Date,
            Error,
        >::Err(Error::FrontmatterMissing),
{
    if let Some(date) = frontmatter.date {
        Ok(date)
    } else if let Some(lastmod) = frontmatter.lastmod {
        Ok(lastmod)
    } else {
        Err(Error::FrontmatterMissing)
    }
}

} // verus!
