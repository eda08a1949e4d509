use vstd::prelude::*;
use vstd::string::StringExecFns;

use crate::datetime::{spec_dec, dec_string};

verus! {

/// A council member as the roster endpoint reports it. The identity is an
/// opaque token; two entries name the same member exactly when the tokens
/// are equal.
#[derive(Clone, PartialEq, Eq, Debug)]
pub struct Person {
    pub id: String,
    pub first_name: String,
    pub last_name: String,
}

/// An excused-absence record for one meeting: it only carries the identity
/// of the person it excuses.
#[derive(Clone, PartialEq, Eq, Debug)]
pub struct Abmeldung {
    pub person_id: String,
}

/// One roster entry after reconciliation: the person, whether an absence
/// record excuses them, and whether they were marked present. Presence
/// starts out false and is set only by an explicit selection.
#[derive(Clone, PartialEq, Eq, Debug)]
pub struct PersonWithAbmeldung {
    pub id: String,
    pub first_name: String,
    pub last_name: String,
    pub abgemeldet: bool,
    pub anwesend: bool,
}

/// Does some absence record reference this identity?
pub open spec fn spec_abgemeldet(id: Seq<char>, abmeldungen: Seq<Abmeldung>) -> bool {
    exists|k: int| 0 <= k < abmeldungen.len() && abmeldungen[k].person_id@ == id
}

/// Is `e` the reconciled entry for roster member `p`: same person, excused
/// exactly when an absence record names them, and not yet marked present?
pub open spec fn reconciled_entry(
    p: Person,
    abmeldungen: Seq<Abmeldung>,
    e: PersonWithAbmeldung,
) -> bool {
    &&& e.id@ == p.id@
    &&& e.first_name@ == p.first_name@
    &&& e.last_name@ == p.last_name@
    &&& e.abgemeldet == spec_abgemeldet(p.id@, abmeldungen)
    &&& e.anwesend == false
}

fn is_abgemeldet(id: &String, abmeldungen: &Vec<Abmeldung>) -> (r: bool)
    ensures
        r == spec_abgemeldet(id@, abmeldungen@),
{
    let mut k: usize = 0;
    while k < abmeldungen.len()
        invariant
            0 <= k <= abmeldungen@.len(),
            forall|j: int| 0 <= j < k ==> abmeldungen@[j].person_id@ != id@,
        decreases abmeldungen@.len() - k,
    {
        if abmeldungen[k].person_id == *id {
            return true;
        }
        k = k + 1;
    }
    false
}

/// Joins the roster with the absence records: the result lists the roster
/// in its given order, each member excused exactly when an absence record
/// names their identity, and nobody marked present yet. This is also the
/// non-interactive default: presence stays false for everyone unless an
/// explicit selection marks members present afterwards, so nobody —
/// excused or not — is ever forced present by default.
pub fn determine_abgemeldet_raete(
    personen: &Vec<Person>,
    abmeldungen: &Vec<Abmeldung>,
) -> (r: Vec<PersonWithAbmeldung>)
    ensures
        r@.len() == personen@.len(),
        forall|i: int|
            0 <= i < personen@.len() ==> reconciled_entry(
                personen@[i],
                abmeldungen@,
                #[trigger] r@[i],
            ),
{
    let mut result: Vec<PersonWithAbmeldung> = Vec::new();
    let mut i: usize = 0;
    while i < personen.len()
        invariant
            0 <= i <= personen@.len(),
            result@.len() == i,
            forall|j: int|
                0 <= j < i ==> reconciled_entry(personen@[j], abmeldungen@, #[trigger] result@[j]),
        decreases personen@.len() - i,
    {
        let p = &personen[i];
        let abgemeldet = is_abgemeldet(&p.id, abmeldungen);
        result.push(
            PersonWithAbmeldung {
                id: p.id.clone(),
                first_name: p.first_name.clone(),
                last_name: p.last_name.clone(),
                abgemeldet,
                anwesend: false,
            },
        );
        i = i + 1;
    }
    result
}

/// Is `after` the entry `before` with its presence flag set to "the
/// selection names this identity" and everything else untouched?
pub open spec fn presence_applied(
    before: PersonWithAbmeldung,
    selected: Seq<String>,
    after: PersonWithAbmeldung,
) -> bool {
    &&& after.id == before.id
    &&& after.first_name == before.first_name
    &&& after.last_name == before.last_name
    &&& after.abgemeldet == before.abgemeldet
    &&& after.anwesend == (exists|k: int|
        0 <= k < selected.len() && selected[k]@ == before.id@)
}

/// Marks present exactly the entries whose identity occurs in the
/// selection; everything else about every entry stays as it was.
/// Selection goes by identity, not by display string, so members with
/// equal names cannot be mixed up.
pub fn apply_presence_selection(
    raete: &mut Vec<PersonWithAbmeldung>,
    selected: &Vec<String>,
)
    ensures
        final(raete)@.len() == old(raete)@.len(),
        forall|i: int|
            0 <= i < old(raete)@.len() ==> presence_applied(
                old(raete)@[i],
                selected@,
                #[trigger] final(raete)@[i],
            ),
{
    let n = raete.len();
    let mut i: usize = 0;
    while i < n
        invariant
            0 <= i <= n,
            raete@.len() == n,
            old(raete)@.len() == n,
            forall|j: int| i <= j < n ==> raete@[j] == old(raete)@[j],
            forall|j: int|
                0 <= j < i ==> presence_applied(old(raete)@[j], selected@, #[trigger] raete@[j]),
        decreases n - i,
    {
        let mut found = false;
        let mut k: usize = 0;
        while k < selected.len()
            invariant
                0 <= k <= selected@.len(),
                raete@.len() == n,
                0 <= i < n,
                found == (exists|m: int| 0 <= m < k && selected@[m]@ == raete@[i as int].id@),
        decreases selected@.len() - k,
        {
            if selected[k] == raete[i].id {
                found = true;
            }
            k = k + 1;
        }
        let entry = &mut raete[i];
        entry.anwesend = found;
        i = i + 1;
    }
}

/// How a reconciled entry is shown to an operator: first and last name,
/// space separated.
pub open spec fn spec_display_name(p: PersonWithAbmeldung) -> Seq<char> {
    p.first_name@ + seq![' '] + p.last_name@
}

impl PersonWithAbmeldung {
    pub fn display_name(&self) -> (r: String)
        ensures
            r@ == spec_display_name(*self),
    {
        let mut s = self.first_name.clone();
        s.append(" ");
        s.append(self.last_name.as_str());
        proof {
            reveal_strlit(" ");
            assert(" "@ =~= seq![' ']);
            assert(s@ =~= spec_display_name(*self));
        }
        s
    }
}

/// Whether enough council members are present for binding decisions
/// ("beschlussfaehig"). With an empty roster the question has no answer,
/// so the state is ternary.
#[derive(Clone, Copy, PartialEq, Eq, Structural, Debug)]
pub enum Quorum {
    Met,
    NotMet,
    Indeterminate,
}

/// How many entries are marked present.
pub open spec fn spec_anwesend_count(raete: Seq<PersonWithAbmeldung>) -> int {
    raete.filter(|p: PersonWithAbmeldung| p.anwesend).len() as int
}

pub fn anwesend_count(raete: &Vec<PersonWithAbmeldung>) -> (r: usize)
    ensures
        r == spec_anwesend_count(raete@),
        r <= raete@.len(),
{
    proof {
        broadcast use Seq::lemma_filter_len_push;

        assert(raete@.take(0).filter(|p: PersonWithAbmeldung| p.anwesend) =~= Seq::empty());
    }
    let mut count: usize = 0;
    let mut i: usize = 0;
    while i < raete.len()
        invariant
            0 <= i <= raete@.len(),
            count <= i,
            count == spec_anwesend_count(raete@.take(i as int)),
        decreases raete@.len() - i,
    {
        proof {
            broadcast use Seq::lemma_filter_len_push, Seq::lemma_take_succ_push;

        }
        if raete[i].anwesend {
            count = count + 1;
        }
        i = i + 1;
    }
    proof {
        assert(raete@.take(raete@.len() as int) =~= raete@);
    }
    count
}

/// The ternary quorum verdict over the reconciled roster: met exactly when
/// strictly more than half of the roster is present, not met otherwise,
/// and indeterminate for an empty roster.
pub open spec fn spec_beschlussfaehig(raete: Seq<PersonWithAbmeldung>) -> Quorum {
    if raete.len() == 0 {
        Quorum::Indeterminate
    } else if 2 * spec_anwesend_count(raete) > raete.len() {
        Quorum::Met
    } else {
        Quorum::NotMet
    }
}

pub fn beschlussfaehig(raete: &Vec<PersonWithAbmeldung>) -> (q: Quorum)
    ensures
        q == spec_beschlussfaehig(raete@),
{
    let count = anwesend_count(raete);
    if raete.len() == 0 {
        Quorum::Indeterminate
    } else if 2 * (count as u128) > (raete.len() as u128) {
        Quorum::Met
    } else {
        Quorum::NotMet
    }
}

/// The attendance summary token: the count of present members, or the
/// literal fallback `n` when nobody was marked present (at the least the
/// person writing the minutes is in the room).
pub open spec fn spec_anwesende_label(raete: Seq<PersonWithAbmeldung>) -> Seq<char> {
    if spec_anwesend_count(raete) == 0 {
        "n"@
    } else {
        spec_dec(spec_anwesend_count(raete))
    }
}

/// The quorum line of the rendered document, over the same counts as the
/// ternary verdict, with the cautious wording where nobody is marked
/// present.
pub open spec fn spec_quorum_label(raete: Seq<PersonWithAbmeldung>) -> Seq<char> {
    if raete.len() == 0 || spec_anwesend_count(raete) == 0 {
        "vielleicht beschlussf\u{e4}hig"@
    } else if 2 * spec_anwesend_count(raete) > raete.len() {
        "beschlussf\u{e4}hig"@
    } else {
        "nicht beschlussf\u{e4}hig"@
    }
}

pub fn anwesende_raete_label(raete: &Vec<PersonWithAbmeldung>) -> (r: String)
    ensures
        r@ == spec_anwesende_label(raete@),
{
    let count = anwesend_count(raete);
    if count == 0 {
        let mut s = String::new();
        s.append("n");
        proof {
            assert(s@ =~= "n"@);
        }
        s
    } else {
        dec_string(count as u64)
    }
}

pub fn beschlussfaehig_label(raete: &Vec<PersonWithAbmeldung>) -> (r: String)
    ensures
        r@ == spec_quorum_label(raete@),
{
    let count = anwesend_count(raete);
    if count == 0 || raete.len() == 0 {
        let mut s = String::new();
        s.append("vielleicht beschlussf\u{e4}hig");
        proof {
            assert(s@ =~= "vielleicht beschlussf\u{e4}hig"@);
        }
        s
    } else if 2 * (count as u128) > (raete.len() as u128) {
        let mut s = String::new();
        s.append("beschlussf\u{e4}hig");
        proof {
            assert(s@ =~= "beschlussf\u{e4}hig"@);
        }
        s
    } else {
        let mut s = String::new();
        s.append("nicht beschlussf\u{e4}hig");
        proof {
            assert(s@ =~= "nicht beschlussf\u{e4}hig"@);
        }
        s
    }
}

/// The entries that carry one identity.
pub open spec fn id_class(id: Seq<char>) -> spec_fn(PersonWithAbmeldung) -> bool {
    |e: PersonWithAbmeldung| e.id@ == id
}

/// Every roster member stands in the reconciled list exactly once — the
/// list keeps the roster's own order and introduces no duplicate — and is
/// excused exactly when an absence record names them; provided the roster
/// itself carries no identity twice.
pub proof fn lemma_reconciliation_exactly_once(
    personen: Seq<Person>,
    abmeldungen: Seq<Abmeldung>,
    r: Seq<PersonWithAbmeldung>,
)
    requires
        r.len() == personen.len(),
        forall|i: int|
            0 <= i < personen.len() ==> reconciled_entry(personen[i], abmeldungen, #[trigger] r[i]),
        forall|i: int, j: int|
            0 <= i < personen.len() && 0 <= j < personen.len() && i != j ==> personen[i].id@
                != personen[j].id@,
    ensures
        forall|i: int|
            0 <= i < personen.len() ==> (#[trigger] r[i]).id@ == personen[i].id@ && (
            r[i].abgemeldet <==> spec_abgemeldet(personen[i].id@, abmeldungen)),
        forall|i: int|
            0 <= i < personen.len() ==> #[trigger] r.filter(id_class(personen[i].id@)).len() == 1,
{
    assert forall|i: int|
        0 <= i < personen.len() implies #[trigger] r.filter(id_class(personen[i].id@)).len()
        == 1 by {
        crate::strutil::lemma_filter_single(r, id_class(personen[i].id@), i);
    }
}

/// The relative request target that lists the council roster.
pub fn persons_request_target() -> (r: String)
    ensures
        r@ == "api/persons/by-role/?role=Rat"@,
{
    let mut s = String::new();
    s.append("api/persons/by-role/?role=Rat");
    proof {
        assert(s@ =~= "api/persons/by-role/?role=Rat"@);
    }
    s
}

/// The relative request target that lists the absence records of one
/// meeting, by the meeting's opaque identity.
pub fn abmeldungen_request_target(sitzung_id: &String) -> (r: String)
    ensures
        r@ == "api/sitzungen/"@ + sitzung_id@ + "/abmeldungen/"@,
{
    let mut s = String::new();
    s.append("api/sitzungen/");
    s.append(sitzung_id.as_str());
    s.append("/abmeldungen/");
    s
}

} // verus!
