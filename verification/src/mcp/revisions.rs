//! The protocol revisions this server serves.
//!
//! Whether a revision has a handshake is a fact about that revision, so it is
//! recorded next to it rather than derived from its place in the list.

use crate::text::{same, texts};
use vstd::prelude::*;

verus! {

/// `rmcp::model::ProtocolVersion::V_2026_07_28` as text.
#[verifier::external_body]
fn v_2026_07_28() -> (r: String)
    ensures
        r@ == "2026-07-28"@,
{
    rmcp::model::ProtocolVersion::V_2026_07_28.as_str().to_owned()
}

/// `rmcp::model::ProtocolVersion::V_2025_11_25` as text.
#[verifier::external_body]
fn v_2025_11_25() -> (r: String)
    ensures
        r@ == "2025-11-25"@,
{
    rmcp::model::ProtocolVersion::V_2025_11_25.as_str().to_owned()
}

/// `rmcp::model::ProtocolVersion::V_2025_06_18` as text.
#[verifier::external_body]
fn v_2025_06_18() -> (r: String)
    ensures
        r@ == "2025-06-18"@,
{
    rmcp::model::ProtocolVersion::V_2025_06_18.as_str().to_owned()
}

/// `rmcp::model::ProtocolVersion::V_2025_03_26` as text.
#[verifier::external_body]
fn v_2025_03_26() -> (r: String)
    ensures
        r@ == "2025-03-26"@,
{
    rmcp::model::ProtocolVersion::V_2025_03_26.as_str().to_owned()
}

/// `rmcp::model::ProtocolVersion::V_2024_11_05` as text.
#[verifier::external_body]
fn v_2024_11_05() -> (r: String)
    ensures
        r@ == "2024-11-05"@,
{
    rmcp::model::ProtocolVersion::V_2024_11_05.as_str().to_owned()
}

/// One protocol revision this server serves, and how a client reaches it.
#[derive(Debug)]
pub struct Revision {
    pub version: String,
    /// Whether `initialize` can negotiate it. A revision without a handshake
    /// is reached through `server/discover`.
    pub handshake: bool,
}

/// What a `Revision` holds.
pub ghost struct RevisionView {
    pub version: Seq<char>,
    pub handshake: bool,
}

impl View for Revision {
    type V = RevisionView;

    open spec fn view(&self) -> RevisionView {
        RevisionView { version: self.version@, handshake: self.handshake }
    }
}

/// The revisions this server serves, newest first. The newest has no
/// `initialize`.
pub open spec fn revision_table() -> Seq<RevisionView> {
    seq![
        RevisionView { version: "2026-07-28"@, handshake: false },
        RevisionView { version: "2025-11-25"@, handshake: true },
        RevisionView { version: "2025-06-18"@, handshake: true },
        RevisionView { version: "2025-03-26"@, handshake: true },
        RevisionView { version: "2024-11-05"@, handshake: true },
    ]
}

/// The revisions this server serves, newest first.
pub fn revisions() -> (r: Vec<Revision>)
    ensures
        r.len() == revision_table().len(),
        forall|i: int| 0 <= i < r.len() ==> (#[trigger] r@[i])@ == revision_table()[i],
{
    vec![
        Revision { version: v_2026_07_28(), handshake: false },
        Revision { version: v_2025_11_25(), handshake: true },
        Revision { version: v_2025_06_18(), handshake: true },
        Revision { version: v_2025_03_26(), handshake: true },
        Revision { version: v_2024_11_05(), handshake: true },
    ]
}

/// The versions of a list of revisions.
pub open spec fn versions(list: Seq<RevisionView>) -> Seq<Seq<char>> {
    list.map_values(|r: RevisionView| r.version)
}

/// The revisions of a list that have a handshake, in order.
pub open spec fn with_handshake(list: Seq<RevisionView>) -> Seq<RevisionView>
    decreases list.len(),
{
    if list.len() == 0 {
        seq![]
    } else if list.last().handshake {
        with_handshake(list.drop_last()).push(list.last())
    } else {
        with_handshake(list.drop_last())
    }
}

/// Everything served: what `server/discover` advertises and the protocol layer
/// negotiates within.
pub fn supported_protocol_versions() -> (r: Vec<String>)
    ensures
        texts(r@) == versions(revision_table()),
{
    let table = revisions();
    let mut out: Vec<String> = Vec::new();
    let mut i: usize = 0;
    while i < table.len()
        invariant
            i <= table.len(),
            out.len() == i,
            forall|k: int| 0 <= k < i ==> (#[trigger] out@[k])@ == table@[k]@.version,
        decreases table.len() - i,
    {
        out.push(table[i].version.clone());
        i += 1;
    }
    assert(texts(out@) =~= versions(revision_table()));
    out
}

/// What `initialize` can reach, which is the only useful thing to offer a
/// client whose `initialize` was refused.
pub fn negotiable_protocol_versions() -> (r: Vec<String>)
    ensures
        texts(r@) == versions(with_handshake(revision_table())),
{
    let table = revisions();
    let ghost all = revision_table();
    let mut out: Vec<String> = Vec::new();
    let mut i: usize = 0;
    assert(all.take(0) =~= seq![]);
    assert(texts(out@) =~= versions(with_handshake(all.take(0))));
    while i < table.len()
        invariant
            i <= table.len(),
            all == revision_table(),
            table.len() == all.len(),
            forall|k: int| 0 <= k < table.len() ==> (#[trigger] table@[k])@ == all[k],
            texts(out@) == versions(with_handshake(all.take(i as int))),
        decreases table.len() - i,
    {
        let ghost before = out@;
        assert(all.take(i + 1).drop_last() =~= all.take(i as int));
        assert(all.take(i + 1).last() == table@[i as int]@);
        if table[i].handshake {
            out.push(table[i].version.clone());
            assert(texts(out@) =~= texts(before).push(all[i as int].version));
            assert(versions(with_handshake(all.take(i as int)).push(all[i as int])) =~= versions(
                with_handshake(all.take(i as int)),
            ).push(all[i as int].version));
        }
        i += 1;
    }
    assert(all.take(i as int) =~= all);
    out
}

/// A revision of that version is served without a handshake.
pub open spec fn handshake_free(version: Seq<char>) -> bool {
    exists|i: int|
        0 <= i < revision_table().len() && !revision_table()[i].handshake && (
        #[trigger] revision_table()[i]).version == version
}

/// Whether a revision stands without a handshake. Only those that deleted
/// `initialize` do.
pub fn is_handshake_free(version: &str) -> (r: bool)
    ensures
        r == handshake_free(version@),
{
    let table = revisions();
    let mut i: usize = 0;
    while i < table.len()
        invariant
            i <= table.len(),
            table.len() == revision_table().len(),
            forall|k: int| 0 <= k < table.len() ==> (#[trigger] table@[k])@ == revision_table()[k],
            forall|k: int|
                0 <= k < i ==> revision_table()[k].handshake || (
                #[trigger] revision_table()[k]).version != version@,
        decreases table.len() - i,
    {
        assert(table@[i as int]@ == revision_table()[i as int]);
        if !table[i].handshake && same(table[i].version.as_str(), version) {
            return true;
        }
        i += 1;
    }
    false
}

proof fn lemma_with_handshake(list: Seq<RevisionView>)
    ensures
        forall|i: int|
            0 <= i < with_handshake(list).len() ==> (#[trigger] with_handshake(list)[i]).handshake
                && list.contains(with_handshake(list)[i]),
    decreases list.len(),
{
    if list.len() > 0 {
        lemma_with_handshake(list.drop_last());
        let before = with_handshake(list.drop_last());
        assert forall|i: int| 0 <= i < with_handshake(list).len() implies (
        #[trigger] with_handshake(list)[i]).handshake && list.contains(
            with_handshake(list)[i],
        ) by {
            if i < before.len() {
                assert(with_handshake(list)[i] == before[i]);
                let k = choose|k: int|
                    0 <= k < list.drop_last().len() && list.drop_last()[k] == before[i];
                assert(list[k] == before[i]);
            } else {
                assert(list[list.len() - 1] == list.last());
            }
        }
    }
}

/// A revision without a handshake is never offered to a client whose handshake
/// was refused: it would send the client back to the method that just failed.
pub proof fn law_handshake_free_is_never_negotiable(version: Seq<char>)
    requires
        handshake_free(version),
    ensures
        versions(revision_table()).contains(version),
        !versions(with_handshake(revision_table())).contains(version),
{
    reveal_strlit("2026-07-28");
    reveal_strlit("2025-11-25");
    reveal_strlit("2025-06-18");
    reveal_strlit("2025-03-26");
    reveal_strlit("2024-11-05");
    lemma_with_handshake(revision_table());
    let at = choose|i: int|
        0 <= i < revision_table().len() && !revision_table()[i].handshake && (
        #[trigger] revision_table()[i]).version == version;
    assert(versions(revision_table())[at] == version);
    assert(at == 0);
    let offered = with_handshake(revision_table());
    assert forall|i: int| 0 <= i < offered.len() implies #[trigger] versions(offered)[i]
        != version by {
        assert(offered[i].handshake && revision_table().contains(offered[i]));
        let k = choose|k: int|
            0 <= k < revision_table().len() && revision_table()[k] == offered[i];
        assert(k != 0);
        assert(version[3] == '6');
        assert(revision_table()[k].version[3] != '6');
    }
}

/// Everything negotiable is served, and something is negotiable.
pub proof fn law_negotiable_is_served()
    ensures
        versions(with_handshake(revision_table())).len() > 0,
        forall|version: Seq<char>| #[trigger]
            versions(with_handshake(revision_table())).contains(version) ==> versions(
                revision_table(),
            ).contains(version),
{
    let offered = with_handshake(revision_table());
    lemma_with_handshake(revision_table());
    assert(revision_table().last().handshake);
    assert(offered.len() > 0);
    assert forall|version: Seq<char>| #[trigger]
        versions(offered).contains(version) implies versions(revision_table()).contains(version) by {
        let i = choose|i: int| 0 <= i < versions(offered).len() && versions(offered)[i] == version;
        assert(offered[i].version == version);
        let k = choose|k: int|
            0 <= k < revision_table().len() && revision_table()[k] == offered[i];
        assert(versions(revision_table())[k] == version);
    }
}

/// Every revision that has a handshake can be negotiated, in the order of the
/// table, and no other can.
pub proof fn law_what_can_be_negotiated()
    ensures
        versions(with_handshake(revision_table())) == versions(
            revision_table().filter(|r: RevisionView| r.handshake),
        ),
        forall|i: int|
            0 <= i < revision_table().len() ==> (versions(
                with_handshake(revision_table()),
            ).contains((#[trigger] revision_table()[i]).version) <==> revision_table()[i].handshake),
{
    let table = revision_table();
    lemma_handshake_filter(table);
    let some = with_handshake(table);
    lemma_versions_distinct();
    assert forall|i: int| 0 <= i < table.len() implies (versions(some).contains(
        (#[trigger] table[i]).version,
    ) <==> table[i].handshake) by {
        if table[i].handshake {
            assert(some.contains(table[i]));
            let k = choose|k: int| 0 <= k < some.len() && some[k] == table[i];
            assert(versions(some)[k] == table[i].version);
        } else if versions(some).contains(table[i].version) {
            let k = choose|k: int|
                0 <= k < versions(some).len() && versions(some)[k] == table[i].version;
            assert(some.contains(some[k]));
            assert(table.contains(some[k]));
            let j = choose|j: int| 0 <= j < table.len() && table[j] == some[k];
            assert(table[j].version == table[i].version);
        }
    }
}

proof fn lemma_handshake_filter(list: Seq<RevisionView>)
    ensures
        with_handshake(list) == list.filter(|r: RevisionView| r.handshake),
        forall|r: RevisionView| #[trigger]
            with_handshake(list).contains(r) <==> list.contains(r) && r.handshake,
    decreases list.len(),
{
    reveal(Seq::filter);
    if list.len() > 0 {
        let front = list.drop_last();
        lemma_handshake_filter(front);
        assert forall|r: RevisionView| #[trigger]
            with_handshake(list).contains(r) <==> list.contains(r) && r.handshake by {
            let some = with_handshake(list);
            let before = with_handshake(front);
            if some.contains(r) {
                let k = choose|k: int| 0 <= k < some.len() && some[k] == r;
                if k < before.len() {
                    assert(before[k] == r);
                    assert(before.contains(r));
                    let j = choose|j: int| 0 <= j < front.len() && front[j] == r;
                    assert(list[j] == r);
                } else {
                    assert(list[list.len() - 1] == r);
                }
            }
            if list.contains(r) && r.handshake {
                let j = choose|j: int| 0 <= j < list.len() && list[j] == r;
                if j < front.len() {
                    assert(front[j] == r);
                    assert(front.contains(r));
                    assert(before.contains(r));
                    let k = choose|k: int| 0 <= k < before.len() && before[k] == r;
                    assert(some[k] == r);
                } else {
                    assert(some[some.len() - 1] == r);
                }
            }
        }
    }
}

proof fn lemma_versions_distinct()
    ensures
        forall|i: int, j: int|
            0 <= i < j < revision_table().len() ==> (#[trigger] revision_table()[i]).version != (
            #[trigger] revision_table()[j]).version,
{
    reveal_strlit("2026-07-28");
    reveal_strlit("2025-11-25");
    reveal_strlit("2025-06-18");
    reveal_strlit("2025-03-26");
    reveal_strlit("2024-11-05");
    assert("2026-07-28"@[3] == '6' && "2025-11-25"@[3] == '5' && "2025-06-18"@[3] == '5'
        && "2025-03-26"@[3] == '5' && "2024-11-05"@[3] == '4');
    assert("2025-11-25"@[5] == '1' && "2025-06-18"@[6] == '6' && "2025-03-26"@[6] == '3'
        && "2025-06-18"@[5] == '0' && "2025-03-26"@[5] == '0');
}

/// The revisions that are served are those of the protocol's releases, the
/// newest first; the newest alone has no handshake.
pub proof fn law_the_revisions_served(version: Seq<char>)
    ensures
        versions(revision_table()) == seq![
            "2026-07-28"@,
            "2025-11-25"@,
            "2025-06-18"@,
            "2025-03-26"@,
            "2024-11-05"@,
        ],
        handshake_free(version) <==> version == "2026-07-28"@,
{
    assert(versions(revision_table()) =~= seq![
        "2026-07-28"@,
        "2025-11-25"@,
        "2025-06-18"@,
        "2025-03-26"@,
        "2024-11-05"@,
    ]);
    assert(revision_table()[0].version == "2026-07-28"@);
    if handshake_free(version) {
        let i = choose|i: int|
            0 <= i < revision_table().len() && !revision_table()[i].handshake && (
            #[trigger] revision_table()[i]).version == version;
        assert(i == 0);
    }
}

/// What is advertised, what can be negotiated, and what needs no handshake.
pub proof fn law_what_is_advertised(
    all: Vec<String>,
    some: Vec<String>,
    version: &str,
    free: bool,
)
    requires
        call_ensures(supported_protocol_versions, (), all),
        call_ensures(negotiable_protocol_versions, (), some),
        call_ensures(is_handshake_free, (version,), free),
    ensures
        texts(all@).contains(version@) <==> texts(some@).contains(version@) || version@
            == "2026-07-28"@,
        texts(some@) == seq!["2025-11-25"@, "2025-06-18"@, "2025-03-26"@, "2024-11-05"@],
        free <==> version@ == "2026-07-28"@,
{
    law_the_revisions_served(version@);
    let table = revision_table();
    assert(with_handshake(table) =~= table.skip(1)) by {
        reveal_with_fuel(with_handshake, 6);
        assert(table.drop_last() =~= table.take(4));
        assert(table.take(4).drop_last() =~= table.take(3));
        assert(table.take(3).drop_last() =~= table.take(2));
        assert(table.take(2).drop_last() =~= table.take(1));
        assert(table.take(1).drop_last() =~= seq![]);
    }
    let named = seq!["2025-11-25"@, "2025-06-18"@, "2025-03-26"@, "2024-11-05"@];
    assert(versions(with_handshake(table)) =~= named);
    let served = versions(table);
    assert(served =~= seq!["2026-07-28"@] + named);
    if named.contains(version@) {
        let k = choose|k: int| 0 <= k < named.len() && named[k] == version@;
        assert(served[k + 1] == version@);
    }
    if version@ == "2026-07-28"@ {
        assert(served[0] == version@);
    }
    if served.contains(version@) {
        let k = choose|k: int| 0 <= k < served.len() && served[k] == version@;
        if k > 0 {
            assert(named[k - 1] == version@);
        }
    }
}

} // verus!
