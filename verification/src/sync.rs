use vstd::prelude::*;
use vstd::string::StringExecFns;

use crate::datetime::{
    Date, date_valid, format_date_iso, pad2, pad4, spec_date_iso, spec_pad2, spec_pad4,
};
use crate::protokoll::{
    ProtokollTemplate, lemma_render_roundtrip, spec_recover_frontmatter, spec_render,
    template_valid,
};
use crate::protokoll::sitzung::{SitzungKind, file_prefix, spec_file_prefix};

verus! {

/// The storage path of a meeting document:
/// `protokolle/<year>/<month>-<day>-<kind prefix>protokoll.md`.
pub open spec fn spec_protokoll_path(d: Date, k: SitzungKind) -> Seq<char> {
    "protokolle/"@ + spec_pad4(d.year as int) + seq!['/'] + spec_pad2(d.month as int) + seq![
        '-',
    ] + spec_pad2(d.day as int) + seq!['-'] + spec_file_prefix(k) + "protokoll.md"@
}

pub fn protokoll_path(date: &Date, kind: &SitzungKind) -> (r: String)
    requires
        date_valid(*date),
    ensures
        r@ == spec_protokoll_path(*date, *kind),
{
    let mut s = String::from_str("protokolle/");
    let y = pad4(date.year);
    s.append(y.as_str());
    s.append("/");
    let m = pad2(date.month);
    s.append(m.as_str());
    s.append("-");
    let d = pad2(date.day);
    s.append(d.as_str());
    s.append("-");
    s.append(file_prefix(kind));
    s.append("protokoll.md");
    proof {
        reveal_strlit("/");
        reveal_strlit("-");
        assert("/"@ =~= seq!['/']);
        assert("-"@ =~= seq!['-']);
        assert(s@ =~= spec_protokoll_path(*date, *kind));
    }
    s
}

/// A rendered document written out, read back and recovered computes
/// exactly the storage path it was first written to: the metadata block
/// returns the meeting's date and kind, and with them the path.
pub proof fn lemma_roundtrip_path(m: ProtokollTemplate)
    requires
        template_valid(m),
    ensures
        spec_recover_frontmatter(spec_render(m)) matches Ok(fm) && (fm.date matches Some(d)
            && fm.sitzung_kind matches Some(k) && spec_protokoll_path(d, k)
            == spec_protokoll_path(m.sitzung.datetime.date, m.sitzung.kind)),
{
    lemma_render_roundtrip(m);
}

/// The collaborative-pad page for a meeting date, by the fixed
/// date-based slug convention.
pub fn pad_url(date: &Date) -> (r: String)
    requires
        date_valid(*date),
    ensures
        r@ == "https://pad.hhu.de/"@ + spec_date_iso(*date) + "-FSR-Informatik"@,
{
    let mut s = String::from_str("https://pad.hhu.de/");
    let d = format_date_iso(date);
    s.append(d.as_str());
    s.append("-FSR-Informatik");
    proof {
        assert(s@ =~= "https://pad.hhu.de/"@ + spec_date_iso(*date) + "-FSR-Informatik"@);
    }
    s
}

/// Where a pad page serves its raw text: the page itself with
/// `/download` appended.
pub fn pad_download_endpoint(origin: &str, path: &str) -> (r: String)
    ensures
        r@ == origin@ + path@ + "/download"@,
{
    let mut s = String::from_str(origin);
    s.append(path);
    s.append("/download");
    proof {
        assert(s@ =~= origin@ + path@ + "/download"@);
    }
    s
}

} // verus!
