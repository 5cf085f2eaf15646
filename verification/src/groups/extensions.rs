//! The extensions of a group's context.

use vstd::prelude::*;
use crate::bytes;
use crate::error::ExternalError;
use crate::groups::app_data::component_source::AppDataDictionary;
use crate::groups::group_membership::GroupMembership;
use crate::records::ConversationType;
use crate::text_map::TextMap;

verus! {

/// The types of extensions that the client knows, and any other by its number.
#[derive(Clone, Copy, Debug, PartialEq, Eq, Structural)]
pub enum ExtensionType {
    ApplicationId,
    LastResort,
    RequiredCapabilities,
    ImmutableMetadata,
    AppDataDictionary,
    MutableMetadata,
    GroupPermissions,
    GroupMembership,
    ProposalSupport,
    WelcomeWrapperEncryption,
    WelcomePointeeEncryptionAeadTypes,
    Unknown(u16),
}

#[derive(Clone, Copy, Debug, PartialEq, Eq, Structural)]
pub enum ProposalType {
    Add,
    Update,
    Remove,
    PreSharedKey,
    Reinit,
    ExternalInit,
    GroupContextExtensions,
    AppDataUpdate,
    Custom(u16),
}

#[derive(Clone, Copy, Debug, PartialEq, Eq, Structural)]
pub enum CredentialType {
    Basic,
    X509,
    Other(u16),
}

/// A value that was read from bytes, or the reason why it could not be.
#[derive(Debug)]
pub enum Decoded<T> {
    Valid(T),
    Malformed(ExternalError),
}

/// The two people of a direct conversation.
#[derive(Debug)]
pub struct DmMembers {
    pub member_one_inbox_id: String,
    pub member_two_inbox_id: String,
}

/// What is fixed when a group is created.
#[derive(Debug)]
pub struct GroupMetadata {
    pub conversation_type: ConversationType,
    pub creator_inbox_id: String,
    pub dm_members: Option<DmMembers>,
    pub oneshot_message: Option<Vec<u8>>,
}

/// What members of a group can change, and who administers it.
pub struct GroupMutableMetadata {
    pub attributes: TextMap<String>,
    pub admin_list: Vec<String>,
    pub super_admin_list: Vec<String>,
}

impl GroupMutableMetadata {
    /// The inboxes on the list of admins.
    pub open spec fn admins(self) -> Seq<Seq<char>> {
        bytes::text_views(self.admin_list@)
    }

    /// The inboxes on the list of super admins.
    pub open spec fn super_admins(self) -> Seq<Seq<char>> {
        bytes::text_views(self.super_admin_list@)
    }

    /// Fresh metadata with the same contents.
    pub fn duplicate(&self) -> (r: Self)
        ensures
            r.attributes@ == self.attributes@,
            r.admin_list@ == self.admin_list@,
            r.super_admin_list@ == self.super_admin_list@,
    {
        GroupMutableMetadata {
            attributes: self.attributes.duplicate_texts(),
            admin_list: bytes::clone_texts(self.admin_list.as_slice()),
            super_admin_list: bytes::clone_texts(self.super_admin_list.as_slice()),
        }
    }

    /// Whether an inbox administers the group.
    pub fn is_admin(&self, inbox_id: &str) -> (r: bool)
        ensures
            r == self.admins().contains(inbox_id@),
    {
        bytes::contains_text(self.admin_list.as_slice(), inbox_id)
    }

    /// Whether an inbox is a super admin of the group.
    pub fn is_super_admin(&self, inbox_id: &str) -> (r: bool)
        ensures
            r == self.super_admins().contains(inbox_id@),
    {
        bytes::contains_text(self.super_admin_list.as_slice(), inbox_id)
    }
}

/// Who may do something in a group.
#[derive(Debug)]
pub enum Policy {
    Allow,
    Deny,
    AdminOnly,
    SuperAdminOnly,
    /// A condition over other policies, as it is encoded.
    Compound(Vec<u8>),
}

/// A policy as a mathematical value.
pub enum PolicyView {
    Allow,
    Deny,
    AdminOnly,
    SuperAdminOnly,
    Compound(Seq<u8>),
}

impl View for Policy {
    type V = PolicyView;

    open spec fn view(&self) -> PolicyView {
        match *self {
            Policy::Allow => PolicyView::Allow,
            Policy::Deny => PolicyView::Deny,
            Policy::AdminOnly => PolicyView::AdminOnly,
            Policy::SuperAdminOnly => PolicyView::SuperAdminOnly,
            Policy::Compound(b) => PolicyView::Compound(b@),
        }
    }
}

impl Policy {
    /// Whether two policies are the same.
    pub fn same_as(&self, other: &Policy) -> (r: bool)
        ensures
            r == (self@ == other@),
    {
        match (self, other) {
            (Policy::Allow, Policy::Allow) => true,
            (Policy::Deny, Policy::Deny) => true,
            (Policy::AdminOnly, Policy::AdminOnly) => true,
            (Policy::SuperAdminOnly, Policy::SuperAdminOnly) => true,
            (Policy::Compound(a), Policy::Compound(b)) => bytes::bytes_equal(a.as_slice(), b.as_slice()),
            _ => false,
        }
    }
}

/// Who may do what in a group.
pub struct PolicySet {
    pub add_member_policy: Policy,
    pub remove_member_policy: Policy,
    pub update_metadata_policy: TextMap<Policy>,
    pub add_admin_policy: Policy,
    pub remove_admin_policy: Policy,
    pub update_permissions_policy: Policy,
}

/// What every member of a group must support.
#[derive(Debug)]
pub struct RequiredCapabilities {
    pub extension_types: Vec<ExtensionType>,
    pub proposal_types: Vec<ProposalType>,
    pub credential_types: Vec<CredentialType>,
}

/// One extension, with its content as far as the client reads it.
pub enum Extension {
    RequiredCapabilities(RequiredCapabilities),
    ImmutableMetadata(Decoded<GroupMetadata>),
    MutableMetadata(Decoded<GroupMutableMetadata>),
    GroupPermissions(Decoded<PolicySet>),
    GroupMembership(Decoded<GroupMembership>),
    /// The version of the proposal flow.
    ProposalSupport(Decoded<u32>),
    AppDataDictionary(AppDataDictionary),
    Other(ExtensionType, Vec<u8>),
}

impl Extension {
    /// The type of an extension.
    pub open spec fn spec_type(self) -> ExtensionType {
        match self {
            Extension::RequiredCapabilities(_) => ExtensionType::RequiredCapabilities,
            Extension::ImmutableMetadata(_) => ExtensionType::ImmutableMetadata,
            Extension::MutableMetadata(_) => ExtensionType::MutableMetadata,
            Extension::GroupPermissions(_) => ExtensionType::GroupPermissions,
            Extension::GroupMembership(_) => ExtensionType::GroupMembership,
            Extension::ProposalSupport(_) => ExtensionType::ProposalSupport,
            Extension::AppDataDictionary(_) => ExtensionType::AppDataDictionary,
            Extension::Other(t, _) => t,
        }
    }

    /// The type of an extension.
    pub fn extension_type(&self) -> (r: ExtensionType)
        ensures
            r == self.spec_type(),
    {
        match self {
            Extension::RequiredCapabilities(_) => ExtensionType::RequiredCapabilities,
            Extension::ImmutableMetadata(_) => ExtensionType::ImmutableMetadata,
            Extension::MutableMetadata(_) => ExtensionType::MutableMetadata,
            Extension::GroupPermissions(_) => ExtensionType::GroupPermissions,
            Extension::GroupMembership(_) => ExtensionType::GroupMembership,
            Extension::ProposalSupport(_) => ExtensionType::ProposalSupport,
            Extension::AppDataDictionary(_) => ExtensionType::AppDataDictionary,
            Extension::Other(t, _) => *t,
        }
    }
}

/// The extensions of a group's context, in order.
pub struct Extensions {
    pub list: Vec<Extension>,
}

/// Where the first extension of a type stands.
pub open spec fn is_first_of(list: Seq<Extension>, t: ExtensionType, i: int) -> bool {
    &&& 0 <= i < list.len()
    &&& list[i].spec_type() == t
    &&& forall|j: int| 0 <= j < i ==> (#[trigger] list[j]).spec_type() != t
}

/// Whether a list has an extension of a type.
pub open spec fn has_type(list: Seq<Extension>, t: ExtensionType) -> bool {
    exists|i: int| is_first_of(list, t, i)
}

/// The first extension of a type.
pub open spec fn first_of(list: Seq<Extension>, t: ExtensionType) -> Option<Extension> {
    if has_type(list, t) {
        Some(list[choose|i: int| is_first_of(list, t, i)])
    } else {
        None
    }
}

/// The extensions of all other types, in their order.
pub open spec fn without_type(list: Seq<Extension>, t: ExtensionType) -> Seq<Extension> {
    list.filter(|e: Extension| e.spec_type() != t)
}

pub proof fn lemma_first_of(list: Seq<Extension>, t: ExtensionType, i: int)
    requires
        is_first_of(list, t, i),
    ensures
        first_of(list, t) == Some(list[i]),
{
    let k = choose|k: int| is_first_of(list, t, k);
    assert(is_first_of(list, t, k));
    if k < i {
        assert(list[k].spec_type() == t);
    } else if i < k {
        assert(list[i].spec_type() == t);
    }
}

/// What is left once a type is taken out has no extension of that type, and keeps the first
/// extension of every other.
pub proof fn without_type_keeps_others(list: Seq<Extension>, t: ExtensionType, u: ExtensionType)
    ensures
        first_of(without_type(list, t), t) is None,
        u != t ==> first_of(without_type(list, t), u) == first_of(list, u),
    decreases list.len(),
{
    reveal(Seq::filter);
    let p = |e: Extension| e.spec_type() != t;
    let out = without_type(list, t);
    if list.len() > 0 {
        let init = list.drop_last();
        let last = list.last();
        without_type_keeps_others(init, t, u);
        let out_init = without_type(init, t);
        assert(out == if p(last) { out_init.push(last) } else { out_init });
        lemma_first_of_push(init, last, u);
        lemma_first_of_push(out_init, last, u);
        lemma_first_of_push(out_init, last, t);
        assert(init.push(last) =~= list);
    } else {
        assert(out =~= list);
    }
}

/// Appending an extension changes the first of its type only where there was none.
pub proof fn lemma_first_of_push(list: Seq<Extension>, e: Extension, t: ExtensionType)
    ensures
        first_of(list.push(e), t) == (if first_of(list, t) is Some {
            first_of(list, t)
        } else if e.spec_type() == t {
            Some(e)
        } else {
            None
        }),
{
    let out = list.push(e);
    if has_type(list, t) {
        let i = choose|i: int| is_first_of(list, t, i);
        assert(is_first_of(out, t, i));
        lemma_first_of(out, t, i);
        lemma_first_of(list, t, i);
    } else {
        assert forall|j: int| 0 <= j < list.len() implies (#[trigger] list[j]).spec_type() != t by {
            lemma_no_first(list, t, j);
        }
        if e.spec_type() == t {
            assert(is_first_of(out, t, list.len() as int));
            lemma_first_of(out, t, list.len() as int);
        } else if has_type(out, t) {
            let i = choose|i: int| is_first_of(out, t, i);
            assert(is_first_of(out, t, i));
            if i < list.len() {
                assert(out[i] == list[i]);
            }
        }
    }
}

proof fn lemma_no_first(list: Seq<Extension>, t: ExtensionType, j: int)
    requires
        !has_type(list, t),
        0 <= j < list.len(),
    ensures
        list[j].spec_type() != t,
    decreases j,
{
    if list[j].spec_type() == t {
        assert forall|k: int| 0 <= k < j implies (#[trigger] list[k]).spec_type() != t by {
            lemma_no_first(list, t, k);
        }
        assert(is_first_of(list, t, j));
    }
}

impl Extensions {
    /// The first extension of a type.
    pub fn find(&self, t: ExtensionType) -> (r: Option<&Extension>)
        ensures
            match r {
                Some(e) => first_of(self.list@, t) == Some(*e) && e.spec_type() == t,
                None => first_of(self.list@, t) is None,
            },
    {
        let mut i: usize = 0;
        while i < self.list.len()
            invariant
                i <= self.list@.len(),
                forall|j: int| 0 <= j < i ==> (#[trigger] self.list@[j]).spec_type() != t,
            decreases self.list@.len() - i,
        {
            if self.list[i].extension_type() == t {
                proof {
                    lemma_first_of(self.list@, t, i as int);
                }
                return Some(&self.list[i]);
            }
            i += 1;
        }
        None
    }

    /// Takes every extension of a type out; the first of them is handed back.
    pub fn remove(self, t: ExtensionType) -> (r: (Extensions, Option<Extension>))
        ensures
            r.0.list@ == without_type(self.list@, t),
            r.1 == first_of(self.list@, t),
            r.1 is Some ==> r.1->0.spec_type() == t,
    {
        let ghost all = self.list@;
        let mut list = self.list;
        let mut kept: Vec<Extension> = Vec::new();
        let mut taken: Option<Extension> = None;
        assert(all.take(0) =~= Seq::<Extension>::empty());
        proof {
            reveal(Seq::filter);
        }
        let total: usize = list.len();
        let mut i: usize = 0;
        while i < total
            invariant
                total == all.len(),
                i <= total,
                list@ == all.subrange(i as int, all.len() as int),
                kept@ == without_type(all.take(i as int), t),
                taken == first_of(all.take(i as int), t),
                taken is Some ==> taken->0.spec_type() == t,
            decreases total - i,
        {
            let e = list.remove(0);
            assert(e == all[i as int]);
            proof {
                reveal(Seq::filter);
                assert(all.take(i + 1) =~= all.take(i as int).push(e));
                assert(all.take(i + 1).drop_last() =~= all.take(i as int));
                lemma_first_of_push(all.take(i as int), e, t);
                assert(list@ =~= all.subrange(i + 1, all.len() as int));
            }
            if e.extension_type() == t {
                if taken.is_none() {
                    taken = Some(e);
                }
            } else {
                kept.push(e);
            }
            i += 1;
        }
        assert(all.take(total as int) =~= all);
        (Extensions { list: kept }, taken)
    }

    /// Puts an extension in the place of any of its type.
    pub fn add_or_replace(self, e: Extension) -> (r: Extensions)
        ensures
            r.list@ == without_type(self.list@, e.spec_type()).push(e),
    {
        let (mut rest, _old) = self.remove(e.extension_type());
        rest.list.push(e);
        rest
    }
}

/// An extension that was put into a list is the one that is found there, and no other type is
/// touched.
pub proof fn added_extension_is_found(list: Seq<Extension>, e: Extension, u: ExtensionType)
    ensures
        first_of(without_type(list, e.spec_type()).push(e), e.spec_type()) == Some(e),
        u != e.spec_type() ==> first_of(without_type(list, e.spec_type()).push(e), u) == first_of(list, u),
{
    let t = e.spec_type();
    without_type_keeps_others(list, t, u);
    lemma_first_of_push(without_type(list, t), e, t);
    lemma_first_of_push(without_type(list, t), e, u);
}

/// Putting an extension into a list leaves all extensions of other types as they stood.
pub proof fn without_type_is_stable(list: Seq<Extension>, e: Extension)
    ensures
        without_type(without_type(list, e.spec_type()).push(e), e.spec_type()) == without_type(list, e.spec_type()),
{
    let t = e.spec_type();
    reveal(Seq::filter);
    let rest = without_type(list, t);
    assert(rest.push(e).drop_last() =~= rest);
    lemma_without_twice(list, t);
}

proof fn lemma_without_twice(list: Seq<Extension>, t: ExtensionType)
    ensures
        without_type(without_type(list, t), t) == without_type(list, t),
    decreases list.len(),
{
    reveal(Seq::filter);
    if list.len() > 0 {
        let init = list.drop_last();
        lemma_without_twice(init, t);
        let rest = without_type(init, t);
        if list.last().spec_type() != t {
            assert(rest.push(list.last()).drop_last() =~= rest);
        }
    }
}

} // verus!
