//! Broker topic codec.
//!
//! Two topic families, both slash-delimited: `<role>/<id>/status` carries the
//! retained liveness beacon, `<role>/<id>/signal` carries signaling
//! envelopes.  Building and splitting are mutual inverses for every valid
//! `(role, id)` pair.

use vstd::prelude::*;

use crate::message::{role_token, SignalRole};
use crate::text::{chars_to_string, str_eq, str_to_chars};

verus! {

/// An id may stand inside a topic only if it is non-empty and contains no
/// slash, so that the three segments of a topic stay unambiguous.
pub open spec fn valid_id(id: Seq<char>) -> bool {
    &&& id.len() > 0
    &&& forall|i: int| 0 <= i < id.len() ==> id[i] != '/'
}

/// Text of a topic: role segment, id segment, then a 7-character suffix
/// (`/status` or `/signal`).
pub open spec fn topic_text(role: SignalRole, id: Seq<char>, sfx: Seq<char>) -> Seq<char> {
    role_token(role) + "/"@ + id + sfx
}

/// Whether `topic` is the topic of some role with this id and suffix.
pub open spec fn is_topic_for(topic: Seq<char>, id: Seq<char>, sfx: Seq<char>) -> bool {
    topic == topic_text(SignalRole::Caller, id, sfx) || topic == topic_text(
        SignalRole::Callee,
        id,
        sfx,
    )
}

/// Text of the status topic of `(role, id)`.
pub open spec fn status_topic_of(role: SignalRole, id: Seq<char>) -> Seq<char> {
    topic_text(role, id, "/status"@)
}

/// Text of the signal topic of `(role, id)`.
pub open spec fn signal_topic_of(role: SignalRole, id: Seq<char>) -> Seq<char> {
    topic_text(role, id, "/signal"@)
}

/// Both role tokens are six characters long and slash-free.
pub proof fn lemma_role_token_shape(role: SignalRole)
    ensures
        role_token(role).len() == 6,
        forall|i: int| 0 <= i < 6 ==> role_token(role)[i] != '/',
{
    reveal_strlit("caller");
    reveal_strlit("callee");
}

/// A topic determines its parts: its length is the sum of the segments, and
/// each position holds the corresponding character of its segment.
pub proof fn lemma_topic_parts(role: SignalRole, id: Seq<char>, sfx: Seq<char>, t: Seq<char>)
    requires
        t == topic_text(role, id, sfx),
    ensures
        t.len() == 7 + id.len() + sfx.len(),
        forall|i: int| 0 <= i < 6 ==> t[i] == role_token(role)[i],
        t[6] == '/',
        forall|i: int| 7 <= i < 7 + id.len() ==> t[i] == id[i - 7],
        forall|i: int| 7 + id.len() <= i < t.len() ==> t[i] == sfx[i - 7 - id.len()],
{
    lemma_role_token_shape(role);
    reveal_strlit("/");
    let head = role_token(role) + "/"@;
    let body = head + id;
    assert(t =~= body + sfx);
    assert forall|i: int| 0 <= i < 6 implies t[i] == role_token(role)[i] by {
        assert(t[i] == body[i]);
        assert(body[i] == head[i]);
    }
    assert(t[6] == head[6]);
    assert forall|i: int| 7 <= i < 7 + id.len() implies t[i] == id[i - 7] by {
        assert(t[i] == body[i]);
    }
    assert forall|i: int| 7 + id.len() <= i < t.len() implies t[i] == sfx[i - 7 - id.len()]
        by {
        assert(t[i] == sfx[i - body.len()]);
    }
}

/// Building a topic is injective over valid `(role, id)` pairs: equal topics
/// with the same suffix length come from the same role and id.  Together
/// with the build and split contracts this says the two are mutual inverses.
pub proof fn lemma_topic_text_injective(
    role1: SignalRole,
    id1: Seq<char>,
    role2: SignalRole,
    id2: Seq<char>,
    sfx: Seq<char>,
)
    requires
        topic_text(role1, id1, sfx) == topic_text(role2, id2, sfx),
    ensures
        role1 == role2,
        id1 == id2,
{
    let t = topic_text(role1, id1, sfx);
    lemma_topic_parts(role1, id1, sfx, t);
    lemma_topic_parts(role2, id2, sfx, t);
    reveal_strlit("caller");
    reveal_strlit("callee");
    if role1 != role2 {
        assert(role_token(role1)[5] == t[5]);
        assert(role_token(role2)[5] == t[5]);
        assert(false);
    }
    assert forall|j: int| 0 <= j < id1.len() implies id1[j] == id2[j] by {
        assert(t[j + 7] == id1[j]);
        assert(t[j + 7] == id2[j]);
    }
    assert(id1 =~= id2);
}

/// Status and signal topics never coincide: the suffixes differ.
pub proof fn lemma_topic_families_disjoint(
    role1: SignalRole,
    id1: Seq<char>,
    role2: SignalRole,
    id2: Seq<char>,
)
    ensures
        status_topic_of(role1, id1) != signal_topic_of(role2, id2),
{
    reveal_strlit("/status");
    reveal_strlit("/signal");
    let t1 = status_topic_of(role1, id1);
    let t2 = signal_topic_of(role2, id2);
    if t1 == t2 {
        lemma_topic_parts(role1, id1, "/status"@, t1);
        lemma_topic_parts(role2, id2, "/signal"@, t2);
        let n = t1.len() as int;
        assert(t1[n - 5] == "/status"@[2]);
        assert(t2[n - 5] == "/signal"@[2]);
        assert(false);
    }
}

/// Builds `<role>/<id><sfx>`.
fn build_topic(role: SignalRole, id: &str, sfx: &str) -> (r: String)
    ensures
        r@ == topic_text(role, id@, sfx@),
{
    let mut s = role.as_str().to_owned();
    s.append("/");
    s.append(id);
    s.append(sfx);
    proof {
        assert(s@ =~= topic_text(role, id@, sfx@));
    }
    s
}

/// The status topic of `(id, role)`: `<role>/<id>/status`.
pub fn get_status_topic(id: &str, role: SignalRole) -> (r: String)
    ensures
        r@ == status_topic_of(role, id@),
{
    build_topic(role, id, "/status")
}

/// The signal topic of `(id, role)`: `<role>/<id>/signal`.
pub fn get_signal_topic(id: &str, role: SignalRole) -> (r: String)
    ensures
        r@ == signal_topic_of(role, id@),
{
    build_topic(role, id, "/signal")
}

/// Splits `<role>/<id><sfx>` and returns the embedded id, or `None` when the
/// text is not such a topic for any role and valid id.
fn split_topic(topic: &str, sfx: &str) -> (r: Option<String>)
    requires
        sfx@.len() == 7,
    ensures
        r matches Some(id) ==> valid_id(id@) && is_topic_for(topic@, id@, sfx@),
        r is None ==> forall|role: SignalRole, id: Seq<char>|
            valid_id(id) ==> topic@ != topic_text(role, id, sfx@),
{
    let v = str_to_chars(topic);
    let n = v.len();
    if n < 15 {
        proof {
            assert forall|role: SignalRole, id: Seq<char>|
                valid_id(id) implies topic@ != topic_text(role, id, sfx@) by {
                if topic@ == topic_text(role, id, sfx@) {
                    lemma_topic_parts(role, id, sfx@, topic@);
                }
            }
        }
        return None;
    }
    let mut mid: Vec<char> = Vec::new();
    let mut i: usize = 7;
    while i < n - 7
        invariant
            v@ == topic@,
            n == topic@.len(),
            15 <= n,
            sfx@.len() == 7,
            7 <= i <= n - 7,
            mid@ =~= topic@.subrange(7, i as int),
            forall|j: int| 0 <= j < mid@.len() ==> mid@[j] != '/',
        decreases n - i,
    {
        let c = v[i];
        if c == '/' {
            proof {
                assert forall|role: SignalRole, id: Seq<char>|
                    valid_id(id) implies topic@ != topic_text(role, id, sfx@) by {
                    if topic@ == topic_text(role, id, sfx@) {
                        lemma_topic_parts(role, id, sfx@, topic@);
                        assert(topic@[i as int] == id[i - 7]);
                    }
                }
            }
            return None;
        }
        mid.push(c);
        i = i + 1;
    }
    let found = chars_to_string(&mid);
    proof {
        assert(found@ == mid@);
        assert(mid@.len() == n - 14);
        assert(valid_id(found@));
    }
    let caller_topic = build_topic(SignalRole::Caller, found.as_str(), sfx);
    if str_eq(topic, caller_topic.as_str()) {
        proof {
            assert(topic@ == topic_text(SignalRole::Caller, found@, sfx@));
        }
        return Some(found);
    }
    let callee_topic = build_topic(SignalRole::Callee, found.as_str(), sfx);
    if str_eq(topic, callee_topic.as_str()) {
        proof {
            assert(topic@ == topic_text(SignalRole::Callee, found@, sfx@));
        }
        return Some(found);
    }
    proof {
        assert forall|role: SignalRole, id2: Seq<char>|
            valid_id(id2) implies topic@ != topic_text(role, id2, sfx@) by {
            if topic@ == topic_text(role, id2, sfx@) {
                lemma_topic_parts(role, id2, sfx@, topic@);
                assert forall|j: int| 0 <= j < id2.len() implies id2[j] == mid@[j] by {
                    assert(topic@[j + 7] == id2[j]);
                }
                assert(id2 =~= mid@);
                match role {
                    SignalRole::Caller => assert(topic@ == caller_topic@),
                    SignalRole::Callee => assert(topic@ == callee_topic@),
                }
            }
        }
    }
    None
}

/// Returns the id embedded in a status topic, or `None` when the text is not
/// a status topic of any role and valid id.
pub fn split_status_topic(topic: &str) -> (r: Option<String>)
    ensures
        r matches Some(id) ==> valid_id(id@) && (topic@ == status_topic_of(
            SignalRole::Caller,
            id@,
        ) || topic@ == status_topic_of(SignalRole::Callee, id@)),
        r is None ==> forall|role: SignalRole, id: Seq<char>|
            valid_id(id) ==> topic@ != status_topic_of(role, id),
{
    proof {
        reveal_strlit("/status");
    }
    let r = split_topic(topic, "/status");
    proof {
        if r is None {
            assert forall|role: SignalRole, id: Seq<char>|
                valid_id(id) implies topic@ != status_topic_of(role, id) by {
                assert(status_topic_of(role, id) == topic_text(role, id, "/status"@));
            }
        }
    }
    r
}

/// Returns the id embedded in a signal topic, or `None` when the text is not
/// a signal topic of any role and valid id.
pub fn split_signal_topic(topic: &str) -> (r: Option<String>)
    ensures
        r matches Some(id) ==> valid_id(id@) && (topic@ == signal_topic_of(
            SignalRole::Caller,
            id@,
        ) || topic@ == signal_topic_of(SignalRole::Callee, id@)),
        r is None ==> forall|role: SignalRole, id: Seq<char>|
            valid_id(id) ==> topic@ != signal_topic_of(role, id),
{
    proof {
        reveal_strlit("/signal");
    }
    let r = split_topic(topic, "/signal");
    proof {
        if r is None {
            assert forall|role: SignalRole, id: Seq<char>|
                valid_id(id) implies topic@ != signal_topic_of(role, id) by {
                assert(signal_topic_of(role, id) == topic_text(role, id, "/signal"@));
            }
        }
    }
    r
}

} // verus!
