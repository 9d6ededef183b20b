//! Identity and policy value types.
//!
//! An `ExternalIdentity` is the canonical `(user_id, identity_provider)` pair
//! extracted from a validated external token; both fields are lower-cased at
//! construction so identity keys are case-insensitive. A `Policy` is an opaque
//! content blob; merging is textual concatenation with a newline separator. A
//! `PolicyAttachment` is the set of policy ids bound to one identity, with set
//! semantics: attaching the same id twice is a no-op and attaching is additive.

use vstd::prelude::*;

verus! {

/// Names the result of `str::to_lowercase`: a pure function of the
/// characters alone, whose full definition (Unicode case folding) is not
/// restated here.
pub uninterp spec fn lower_of(s: Seq<char>) -> Seq<char>;

/// Relies on `str::to_lowercase`: the returned string depends on the input
/// characters alone.
#[verifier::external_body]
pub(crate) fn to_lowercase(s: &str) -> (r: String)
    ensures
        r@ == lower_of(s@),
{
    s.to_lowercase()
}

/// The validated, canonical caller identity.
#[derive(Debug, Clone)]
pub struct ExternalIdentity {
    /// The user ID extracted from the external identity provider.
    pub user_id: String,

    /// The name of the external identity provider.
    pub identity_provider: String,
}

impl ExternalIdentity {
    /// The pair of views that identifies this identity: equality of
    /// identities is equality of these keys.
    pub open spec fn key(self) -> (Seq<char>, Seq<char>) {
        (self.identity_provider@, self.user_id@)
    }

    /// Creates a new identity, lower-casing both fields so that identity
    /// keys are case-insensitive.
    pub fn new(identity_provider: String, user_id: String) -> (r: Self)
        ensures
            r.user_id@ == lower_of(user_id@),
            r.identity_provider@ == lower_of(identity_provider@),
    {
        ExternalIdentity {
            user_id: to_lowercase(user_id.as_str()),
            identity_provider: to_lowercase(identity_provider.as_str()),
        }
    }
}

impl PartialEq for ExternalIdentity {
    fn eq(&self, other: &Self) -> (r: bool) {
        self.user_id == other.user_id && self.identity_provider == other.identity_provider
    }
}

impl vstd::std_specs::cmp::PartialEqSpecImpl for ExternalIdentity {
    open spec fn obeys_eq_spec() -> bool {
        true
    }

    open spec fn eq_spec(&self, other: &Self) -> bool {
        self.user_id@ == other.user_id@ && self.identity_provider@ == other.identity_provider@
    }
}

/// Identity normalization: two identities built from case-variants of the
/// same provider and user names have the same key, so they index the same
/// policy attachments.
pub proof fn lemma_identity_normalization(
    id1: ExternalIdentity,
    id2: ExternalIdentity,
    provider1: Seq<char>,
    user1: Seq<char>,
    provider2: Seq<char>,
    user2: Seq<char>,
)
    requires
        id1.identity_provider@ == lower_of(provider1),
        id1.user_id@ == lower_of(user1),
        id2.identity_provider@ == lower_of(provider2),
        id2.user_id@ == lower_of(user2),
        lower_of(provider1) == lower_of(provider2),
        lower_of(user1) == lower_of(user2),
    ensures
        id1.key() == id2.key(),
{
}

/// Left-to-right union of two sequences of policy ids: the elements of `a`,
/// followed by the elements of `b` that do not already occur, in order of
/// first occurrence.
pub open spec fn id_union(a: Seq<Seq<char>>, b: Seq<Seq<char>>) -> Seq<Seq<char>>
    decreases b.len(),
{
    if b.len() == 0 {
        a
    } else {
        let prefix = id_union(a, b.drop_last());
        if prefix.contains(b.last()) {
            prefix
        } else {
            prefix.push(b.last())
        }
    }
}

pub proof fn lemma_id_union_contains(a: Seq<Seq<char>>, b: Seq<Seq<char>>, x: Seq<char>)
    ensures
        id_union(a, b).contains(x) <==> a.contains(x) || b.contains(x),
    decreases b.len(),
{
    if b.len() > 0 {
        lemma_id_union_contains(a, b.drop_last(), x);
        assert(b.contains(x) <==> b.drop_last().contains(x) || x == b.last()) by {
            if b.contains(x) {
                let i = choose|i: int| 0 <= i < b.len() && b[i] == x;
                if i < b.len() - 1 {
                    assert(b.drop_last()[i] == x);
                }
            }
            if b.drop_last().contains(x) {
                let i = choose|i: int| 0 <= i < b.drop_last().len() && b.drop_last()[i] == x;
                assert(b[i] == x);
            }
        }
        let prefix = id_union(a, b.drop_last());
        if !prefix.contains(b.last()) {
            assert forall|y: Seq<char>| prefix.push(b.last()).contains(y)
                <==> prefix.contains(y) || y == b.last() by {
                if prefix.contains(y) {
                    let i = choose|i: int| 0 <= i < prefix.len() && prefix[i] == y;
                    assert(prefix.push(b.last())[i] == y);
                }
                assert(prefix.push(b.last())[prefix.len() as int] == b.last());
            }
        }
    }
}

pub proof fn lemma_id_union_no_dup(a: Seq<Seq<char>>, b: Seq<Seq<char>>)
    requires
        a.no_duplicates(),
    ensures
        id_union(a, b).no_duplicates(),
    decreases b.len(),
{
    if b.len() > 0 {
        lemma_id_union_no_dup(a, b.drop_last());
        let prefix = id_union(a, b.drop_last());
        if !prefix.contains(b.last()) {
            assert forall|i: int, j: int|
                0 <= i < prefix.push(b.last()).len() && 0 <= j < prefix.push(b.last()).len() && i
                    != j implies prefix.push(b.last())[i] != prefix.push(b.last())[j] by {
                if i < prefix.len() && j < prefix.len() {
                } else if i == prefix.len() {
                    assert(prefix.contains(prefix[j]));
                } else if j == prefix.len() {
                    assert(prefix.contains(prefix[i]));
                }
            }
        }
    }
}

/// Attachment additivity: unioning policy-id lists unions the id sets they
/// stand for.
pub proof fn lemma_attachment_additivity(a: Seq<Seq<char>>, b: Seq<Seq<char>>)
    ensures
        id_union(a, b).to_set() == a.to_set().union(b.to_set()),
{
    assert forall|x: Seq<char>| #[trigger] id_union(a, b).to_set().contains(x)
        <==> a.to_set().union(b.to_set()).contains(x) by {
        lemma_id_union_contains(a, b, x);
    }
    assert(id_union(a, b).to_set() =~= a.to_set().union(b.to_set()));
}

/// Attaching ids that are already present is a no-op, so an identical upsert
/// done twice leaves the attachment exactly as after the first.
pub proof fn lemma_attachment_idempotent(a: Seq<Seq<char>>, b: Seq<Seq<char>>)
    requires
        forall|x: Seq<char>| b.contains(x) ==> a.contains(x),
    ensures
        id_union(a, b) == a,
    decreases b.len(),
{
    if b.len() > 0 {
        assert forall|x: Seq<char>| b.drop_last().contains(x) implies a.contains(x) by {
            let i = choose|i: int| 0 <= i < b.drop_last().len() && b.drop_last()[i] == x;
            assert(b[i] == x);
        }
        lemma_attachment_idempotent(a, b.drop_last());
        assert(b.contains(b.last()));
    }
}

/// Attachment additivity, in the form the attachment store's upsert takes:
/// when ids `b` are attached over already-attached ids `a`, the attached
/// set becomes exactly the union of the two, and attaching `b` once more
/// changes nothing.
pub proof fn lemma_attachment_upsert_additive(a: Seq<Seq<char>>, b: Seq<Seq<char>>)
    ensures
        id_union(a, b).to_set() == a.to_set().union(b.to_set()),
        id_union(id_union(a, b), b) == id_union(a, b),
{
    lemma_attachment_additivity(a, b);
    assert forall|x: Seq<char>| b.contains(x) implies id_union(a, b).contains(x) by {
        lemma_id_union_contains(a, b, x);
    }
    lemma_attachment_idempotent(id_union(a, b), b);
}

/// The set of policy ids bound to one identity.
#[derive(Debug, Clone)]
pub struct PolicyAttachment {
    /// The bound policy ids, in order of first attachment, without
    /// duplicates.
    pub policies: Vec<String>,
}

impl PolicyAttachment {
    /// The bound policy ids in attachment order.
    pub open spec fn ids(self) -> Seq<Seq<char>> {
        self.policies.deep_view()
    }

    /// The bound policy ids as a set.
    pub open spec fn id_set(self) -> Set<Seq<char>> {
        self.ids().to_set()
    }

    /// The attachment invariant: no policy id is recorded twice.
    pub open spec fn wf(self) -> bool {
        self.ids().no_duplicates()
    }

    /// Creates an attachment holding the given policy ids, dropping
    /// duplicates; the first occurrence of each id decides its position.
    pub fn new(policies: Vec<String>) -> (r: Self)
        ensures
            r.ids() == id_union(Seq::<Seq<char>>::empty(), policies.deep_view()),
            r.wf(),
    {
        let mut out: Vec<String> = Vec::new();
        proof {
            assert(out.deep_view() =~= Seq::<Seq<char>>::empty());
        }
        push_missing(&mut out, &policies);
        proof {
            lemma_id_union_no_dup(Seq::<Seq<char>>::empty(), policies.deep_view());
        }
        PolicyAttachment { policies: out }
    }

    /// Creates an attachment holding exactly one policy id.
    pub fn single(policy: String) -> (r: Self)
        ensures
            r.ids() =~= seq![policy@],
            r.wf(),
    {
        let mut set: Vec<String> = Vec::new();
        set.push(policy);
        PolicyAttachment { policies: set }
    }

    /// The attachment that binds the ids of `self` together with those of
    /// `other`: ids of `self` keep their positions, new ids of `other`
    /// follow in order.
    pub fn union(&self, other: &PolicyAttachment) -> (r: Self)
        ensures
            r.ids() == id_union(self.ids(), other.ids()),
            self.wf() ==> r.wf(),
    {
        let mut out = clone_ids(&self.policies);
        push_missing(&mut out, &other.policies);
        proof {
            if self.wf() {
                lemma_id_union_no_dup(self.ids(), other.ids());
            }
        }
        PolicyAttachment { policies: out }
    }
}

/// Clones a list of policy ids element for element.
pub(crate) fn clone_ids(v: &Vec<String>) -> (r: Vec<String>)
    ensures
        r@ == v@,
{
    let r = v.clone();
    proof {
        assert forall|i: int| 0 <= i < v@.len() implies r@[i] == v@[i] by {
            assert(vstd::pervasive::cloned::<String>(v[i], r[i]));
        }
        assert(r@ =~= v@);
    }
    r
}

/// Whether `ids` holds a policy id whose characters equal those of `id`.
fn contains_id(ids: &Vec<String>, id: &String) -> (r: bool)
    ensures
        r == ids.deep_view().contains(id@),
{
    let mut i: usize = 0;
    while i < ids.len()
        invariant
            i <= ids.len(),
            forall|j: int| 0 <= j < i ==> ids.deep_view()[j] != id@,
        decreases ids.len() - i,
    {
        if ids[i].eq(id) {
            assert(ids.deep_view()[i as int] == id@);
            return true;
        }
        i += 1;
    }
    false
}

/// Appends to `dst` each id of `src` that `dst` does not already hold.
fn push_missing(dst: &mut Vec<String>, src: &Vec<String>)
    ensures
        final(dst).deep_view() == id_union(old(dst).deep_view(), src.deep_view()),
{
    let ghost src_ids = src.deep_view();
    let mut i: usize = 0;
    while i < src.len()
        invariant
            i <= src.len(),
            src_ids == src.deep_view(),
            dst.deep_view() == id_union(old(dst).deep_view(), src_ids.take(i as int)),
        decreases src.len() - i,
    {
        proof {
            assert(src_ids.take(i + 1).drop_last() =~= src_ids.take(i as int));
            assert(src_ids.take(i + 1).last() == src_ids[i as int]);
            assert(src_ids[i as int] == src@[i as int]@);
        }
        if !contains_id(dst, &src[i]) {
            let ghost prev = dst.deep_view();
            dst.push(src[i].clone());
            proof {
                assert(dst.deep_view() =~= prev.push(src_ids[i as int]));
            }
        }
        i += 1;
    }
    proof {
        assert(src_ids.take(src.len() as int) =~= src_ids);
    }
}

/// Opaque authorization content. The library stores, merges and ships the
/// content; it never interprets it.
#[derive(Debug, Clone)]
pub struct Policy {
    pub content: String,
}

impl Policy {
    /// Merged content of two policies: concatenation with a newline
    /// separator; an empty left side adds no separator, so folding a list of
    /// policies from the empty policy yields the contents joined by newlines.
    pub open spec fn spec_merge(a: Seq<char>, b: Seq<char>) -> Seq<char> {
        if a.len() == 0 {
            b
        } else {
            a + "\n"@ + b
        }
    }

    pub fn new(content: String) -> (r: Self)
        ensures
            r.content@ == content@,
    {
        Policy { content }
    }

    /// The policy with empty content: the unit of `merge`.
    pub fn empty() -> (r: Self)
        ensures
            r.content@ == Seq::<char>::empty(),
    {
        Policy { content: String::new() }
    }

    /// Concatenates the content of `other` after the content of `self`.
    pub fn merge(&self, other: Policy) -> (r: Self)
        ensures
            r.content@ == Self::spec_merge(self.content@, other.content@),
    {
        if self.content.as_str().is_empty() {
            Policy { content: other.content }
        } else {
            let joined = self.content.clone().concat("\n").concat(other.content.as_str());
            Policy { content: joined }
        }
    }
}

} // verus!
