//! Resolution of message and enum names written in `.proto` files.

use vstd::prelude::*;

use crate::descriptor::field_descriptor_proto::Type;
use crate::model::Enumeration;
use crate::model::Extension;
use crate::model::FileDescriptor;
use crate::model::FileDescriptorPair;
use crate::model::Message;
use crate::protobuf_path::is_path_prefix;
use crate::protobuf_path::ProtobufAbsPath;
use crate::protobuf_path::ProtobufPath;
use crate::protobuf_path::ProtobufRelPath;

verus! {

/// Resolution failures.
pub enum TypeResolverError {
    /// Object is not found by absolute path.
    NotFoundByAbsPath(ProtobufAbsPath),
    /// Object is not found by relative path in a scope.
    NotFoundByRelPath(ProtobufRelPath, ProtobufAbsPath),
}

/// What a name resolves to, as a value.
pub enum Target {
    /// A message.
    Message(Message),
    /// An enum.
    Enum(Enumeration),
}

/// What a name resolves to.
pub enum MessageOrEnum<'a> {
    /// A message.
    Message(&'a Message),
    /// An enum.
    Enum(&'a Enumeration),
}

impl<'a> MessageOrEnum<'a> {
    /// The message or enum referred to.
    pub open spec fn target(&self) -> Target {
        match *self {
            MessageOrEnum::Message(m) => Target::Message(*m),
            MessageOrEnum::Enum(e) => Target::Enum(*e),
        }
    }

    /// Field type of a field of this type.
    pub fn _descriptor_type(&self) -> (r: Type)
        ensures
            r == (match self.target() {
                Target::Message(_) => Type::TYPE_MESSAGE,
                Target::Enum(_) => Type::TYPE_ENUM,
            }),
    {
        match *self {
            MessageOrEnum::Message(..) => Type::TYPE_MESSAGE,
            MessageOrEnum::Enum(..) => Type::TYPE_ENUM,
        }
    }
}

/// A resolved object with its fully qualified name.
pub struct WithFullName<T> {
    /// Fully qualified name.
    pub full_name: ProtobufAbsPath,
    /// The object.
    pub t: T,
}

/// Names of the enums of a list.
pub open spec fn enum_names(enums: Seq<Enumeration>) -> Seq<Seq<char>> {
    enums.map_values(|e: Enumeration| e.name@)
}

/// Names of the messages of a list.
pub open spec fn message_names(messages: Seq<Message>) -> Seq<Seq<char>> {
    messages.map_values(|m: Message| m.name@)
}

/// Names of the members of a scope: its enums, then its messages.
pub open spec fn member_names(enums: Seq<Enumeration>, messages: Seq<Message>) -> Seq<Seq<char>> {
    enum_names(enums) + message_names(messages)
}

/// The first member of a scope with the given name: enums come before
/// messages.
pub open spec fn spec_find_member(
    enums: Seq<Enumeration>,
    messages: Seq<Message>,
    name: Seq<char>,
) -> Option<Target> {
    match member_names(enums, messages).index_of_first(name) {
        Some(i) => if i < enums.len() {
            Some(Target::Enum(enums[i]))
        } else {
            Some(Target::Message(messages[i - enums.len()]))
        },
        None => None,
    }
}

/// The first message of a list with the given name.
pub open spec fn spec_find_message(messages: Seq<Message>, name: Seq<char>) -> Option<Message> {
    match message_names(messages).index_of_first(name) {
        Some(i) => Some(messages[i]),
        None => None,
    }
}

/// Look `path` up in a scope holding `messages` and `enums`, whose own
/// name is `current`: the full name and the object found.
pub open spec fn spec_find_in(
    messages: Seq<Message>,
    enums: Seq<Enumeration>,
    current: Seq<Seq<char>>,
    path: Seq<Seq<char>>,
) -> Option<(Seq<Seq<char>>, Target)>
    decreases path.len(),
{
    if path.len() == 0 {
        None
    } else if path.len() == 1 {
        match spec_find_member(enums, messages, path[0]) {
            Some(t) => Some((current.push(path[0]), t)),
            None => None,
        }
    } else {
        match spec_find_message(messages, path[0]) {
            Some(m) => spec_find_in(
                m.messages@,
                m.enums@,
                current.push(m.name@),
                path.drop_first(),
            ),
            None => None,
        }
    }
}

/// What is found is named by the scope's name followed by the path.
pub proof fn lemma_find_in_full_name(
    messages: Seq<Message>,
    enums: Seq<Enumeration>,
    current: Seq<Seq<char>>,
    path: Seq<Seq<char>>,
)
    ensures
        spec_find_in(messages, enums, current, path) matches Some((full_name, _)) ==> full_name
            == current + path,
    decreases path.len(),
{
    if path.len() == 1 {
        assert(current.push(path[0]) =~= current + path);
    } else if path.len() > 1 {
        if let Some(m) = spec_find_message(messages, path[0]) {
            message_names(messages).index_of_first_ensures(path[0]);
            lemma_find_in_full_name(
                m.messages@,
                m.enums@,
                current.push(m.name@),
                path.drop_first(),
            );
            assert(current.push(m.name@) + path.drop_first() =~= current + path);
        }
    }
}

/// A scope, as a value.
pub enum ScopeView {
    /// The top level of a file.
    File(FileDescriptor),
    /// A message, with its full name.
    Message(Message, Seq<Seq<char>>),
}

/// Messages of a scope.
pub open spec fn scope_messages(s: ScopeView) -> Seq<Message> {
    match s {
        ScopeView::File(f) => f.messages@,
        ScopeView::Message(m, _) => m.messages@,
    }
}

/// Enums of a scope.
pub open spec fn scope_enums(s: ScopeView) -> Seq<Enumeration> {
    match s {
        ScopeView::File(f) => f.enums@,
        ScopeView::Message(m, _) => m.enums@,
    }
}

/// Extensions of a scope.
pub open spec fn scope_extensions(s: ScopeView) -> Seq<Extension> {
    match s {
        ScopeView::File(f) => f.extensions@,
        ScopeView::Message(m, _) => m.extensions@,
    }
}

/// Full name of a scope.
pub open spec fn scope_path(s: ScopeView) -> Seq<Seq<char>> {
    match s {
        ScopeView::File(f) => f.package@,
        ScopeView::Message(_, p) => p,
    }
}

/// The scope of the message named `name` in scope `s`, if the first member
/// of `s` so named is a message.
pub open spec fn spec_scope_down(s: ScopeView, name: Seq<char>) -> Option<ScopeView> {
    match spec_find_member(scope_enums(s), scope_messages(s), name) {
        Some(Target::Message(m)) => Some(ScopeView::Message(m, scope_path(s).push(name))),
        _ => None,
    }
}

/// Scope in which names are looked up.
pub enum LookupScope<'a> {
    /// The top level of a file.
    File(&'a FileDescriptor),
    /// A message, with its full name.
    Message(&'a Message, ProtobufAbsPath),
}

impl<'a> LookupScope<'a> {
    /// The scope as a value.
    pub open spec fn view(&self) -> ScopeView {
        match *self {
            LookupScope::File(f) => ScopeView::File(*f),
            LookupScope::Message(m, p) => ScopeView::Message(*m, p@),
        }
    }

    /// Copy of the scope.
    pub fn clone_scope(&self) -> (r: LookupScope<'a>)
        ensures
            r.view() == self.view(),
    {
        match self {
            LookupScope::File(f) => LookupScope::File(f),
            LookupScope::Message(m, p) => LookupScope::Message(m, p.clone_path()),
        }
    }

    /// Full name of the scope.
    pub fn current_path(&self) -> (r: ProtobufAbsPath)
        ensures
            r@ == scope_path(self.view()),
    {
        match self {
            LookupScope::File(f) => f.package.clone_path(),
            LookupScope::Message(_, p) => p.clone_path(),
        }
    }

    /// Messages declared in the scope.
    pub fn messages(&self) -> (r: &'a Vec<Message>)
        ensures
            r@ == scope_messages(self.view()),
    {
        match *self {
            LookupScope::File(file) => &file.messages,
            LookupScope::Message(message, _) => &message.messages,
        }
    }

    /// The first message of the scope with the given name.
    pub fn find_message(&self, simple_name: &str) -> (r: Option<&'a Message>)
        ensures
            match spec_find_message(scope_messages(self.view()), simple_name@) {
                Some(m) => r matches Some(rm) && *rm == m,
                None => r is None,
            },
    {
        let messages = self.messages();
        let name = simple_name.to_owned();
        let ghost names = message_names(messages@);
        proof {
            names.index_of_first_ensures(name@);
        }
        let mut i: usize = 0;
        while i < messages.len()
            invariant
                i <= messages@.len(),
                names == message_names(messages@),
                messages@ == scope_messages(self.view()),
                name@ == simple_name@,
                forall|j: int| 0 <= j < i ==> names[j] != name@,
            decreases messages@.len() - i,
        {
            if messages[i].name == name {
                proof {
                    names.index_of_first_ensures(name@);
                    assert(names[i as int] == name@);
                    assert(names.contains(name@));
                }
                return Some(&messages[i]);
            }
            i = i + 1;
        }
        proof {
            names.index_of_first_ensures(name@);
        }
        None
    }

    /// Enums declared in the scope.
    pub fn enums(&self) -> (r: &'a Vec<Enumeration>)
        ensures
            r@ == scope_enums(self.view()),
    {
        match *self {
            LookupScope::File(file) => &file.enums,
            LookupScope::Message(message, _) => &message.enums,
        }
    }

    /// Members of the scope with their names: enums, then messages.
    pub fn members(&self) -> (r: Vec<(String, MessageOrEnum<'a>)>)
        ensures
            r@.len() == member_names(scope_enums(self.view()), scope_messages(self.view())).len(),
            forall|j: int|
                0 <= j < r@.len() ==> (#[trigger] r@[j]).0@ == member_names(
                    scope_enums(self.view()),
                    scope_messages(self.view()),
                )[j] && r@[j].1.target() == (if j < scope_enums(self.view()).len() {
                    Target::Enum(scope_enums(self.view())[j])
                } else {
                    Target::Message(
                        scope_messages(self.view())[j - scope_enums(self.view()).len()],
                    )
                }),
    {
        let enums = self.enums();
        let messages = self.messages();
        let ghost names = member_names(enums@, messages@);
        let mut r: Vec<(String, MessageOrEnum<'a>)> = Vec::new();
        let mut i: usize = 0;
        while i < enums.len()
            invariant
                i <= enums@.len(),
                names == member_names(enums@, messages@),
                r@.len() == i,
                forall|j: int|
                    0 <= j < i ==> (#[trigger] r@[j]).0@ == names[j] && r@[j].1.target()
                        == Target::Enum(enums@[j]),
            decreases enums@.len() - i,
        {
            r.push((enums[i].name.clone(), MessageOrEnum::Enum(&enums[i])));
            i = i + 1;
        }
        let mut i: usize = 0;
        while i < messages.len()
            invariant
                i <= messages@.len(),
                names == member_names(enums@, messages@),
                r@.len() == enums@.len() + i,
                forall|j: int|
                    0 <= j < enums@.len() ==> (#[trigger] r@[j]).0@ == names[j] && r@[j].1.target()
                        == Target::Enum(enums@[j]),
                forall|j: int|
                    enums@.len() <= j < enums@.len() + i ==> (#[trigger] r@[j]).0@ == names[j]
                        && r@[j].1.target() == Target::Message(messages@[j - enums@.len()]),
            decreases messages@.len() - i,
        {
            r.push((messages[i].name.clone(), MessageOrEnum::Message(&messages[i])));
            i = i + 1;
        }
        r
    }

    /// The first member of the scope with the given name.
    pub fn find_member(&self, simple_name: &str) -> (r: Option<MessageOrEnum<'a>>)
        ensures
            match spec_find_member(
                scope_enums(self.view()),
                scope_messages(self.view()),
                simple_name@,
            ) {
                Some(t) => r matches Some(me) && me.target() == t,
                None => r is None,
            },
    {
        let members = self.members();
        let name = simple_name.to_owned();
        let ghost names = member_names(scope_enums(self.view()), scope_messages(self.view()));
        proof {
            names.index_of_first_ensures(name@);
        }
        let mut i: usize = 0;
        while i < members.len()
            invariant
                i <= members@.len(),
                members@.len() == names.len(),
                names == member_names(scope_enums(self.view()), scope_messages(self.view())),
                name@ == simple_name@,
                forall|j: int| 0 <= j < i ==> names[j] != name@,
                forall|j: int|
                    0 <= j < members@.len() ==> (#[trigger] members@[j]).0@ == names[j]
                        && members@[j].1.target() == (if j < scope_enums(self.view()).len() {
                        Target::Enum(scope_enums(self.view())[j])
                    } else {
                        Target::Message(
                            scope_messages(self.view())[j - scope_enums(self.view()).len()],
                        )
                    }),
            decreases members@.len() - i,
        {
            if members[i].0 == name {
                proof {
                    names.index_of_first_ensures(name@);
                    assert(names[i as int] == name@);
                    assert(names.contains(name@));
                }
                return Some(
                    match &members[i].1 {
                        MessageOrEnum::Message(m) => MessageOrEnum::Message(m),
                        MessageOrEnum::Enum(e) => MessageOrEnum::Enum(e),
                    },
                );
            }
            i = i + 1;
        }
        proof {
            names.index_of_first_ensures(name@);
        }
        None
    }

    /// Scope of the message named `name` in this scope.
    pub fn down(&self, name: &str) -> (r: Option<LookupScope<'a>>)
        ensures
            match spec_scope_down(self.view(), name@) {
                Some(s) => r matches Some(rs) && rs.view() == s,
                None => r is None,
            },
    {
        match self.find_member(name) {
            None => None,
            Some(MessageOrEnum::Enum(_)) => None,
            Some(MessageOrEnum::Message(m)) => {
                let mut path = self.current_path();
                path.push_simple(name);
                Some(LookupScope::Message(m, path))
            },
        }
    }

    /// Look a relative path up in this scope.
    pub fn find_message_or_enum(&self, path: &ProtobufRelPath) -> (r: Option<
        WithFullName<MessageOrEnum<'a>>,
    >)
        ensures
            match spec_find_in(
                scope_messages(self.view()),
                scope_enums(self.view()),
                scope_path(self.view()),
                path@,
            ) {
                Some((full_name, t)) => r matches Some(w) && w.full_name@ == full_name
                    && w.t.target() == t,
                None => r is None,
            },
        decreases path@.len(),
    {
        let current_path = self.current_path();
        let (first, rem) = match path.split_first_rem() {
            Some(x) => x,
            None => return None,
        };

        if rem.is_empty() {
            match self.find_member(first.as_str()) {
                Some(message_or_enum) => {
                    let mut result_path = current_path.clone_path();
                    result_path.push_simple(first.as_str());
                    Some(WithFullName { full_name: result_path, t: message_or_enum })
                },
                None => None,
            }
        } else {
            match self.find_message(first.as_str()) {
                Some(message) => {
                    let mut message_path = current_path.clone_path();
                    message_path.push_simple(message.name.as_str());
                    let message_scope = LookupScope::Message(message, message_path);
                    message_scope.find_message_or_enum(&rem)
                },
                None => None,
            }
        }
    }

    /// Extensions declared in the scope.
    pub fn extensions(&self) -> (r: Vec<&'a Extension>)
        ensures
            r@.len() == scope_extensions(self.view()).len(),
            forall|j: int|
                0 <= j < r@.len() ==> *(#[trigger] r@[j]) == scope_extensions(self.view())[j],
    {
        let exts: &'a Vec<Extension> = match *self {
            LookupScope::File(f) => &f.extensions,
            LookupScope::Message(m, _) => &m.extensions,
        };
        let mut r: Vec<&'a Extension> = Vec::new();
        let mut i: usize = 0;
        while i < exts.len()
            invariant
                i <= exts@.len(),
                exts@ == scope_extensions(self.view()),
                r@.len() == i,
                forall|j: int| 0 <= j < i ==> *(#[trigger] r@[j]) == exts@[j],
            decreases exts@.len() - i,
        {
            r.push(&exts[i]);
            i = i + 1;
        }
        r
    }
}

/// Scopes as values.
pub open spec fn scopes_view<'a>(scopes: Seq<LookupScope<'a>>) -> Seq<ScopeView> {
    scopes.map_values(|s: LookupScope<'a>| s.view())
}

/// Files as values.
pub open spec fn files_view<'a>(files: Seq<&'a FileDescriptor>) -> Seq<FileDescriptor> {
    files.map_values(|f: &'a FileDescriptor| *f)
}

/// Each scope stepped down into the message `name`, where it has one.
pub open spec fn spec_down_all(scopes: Seq<ScopeView>, name: Seq<char>) -> Seq<ScopeView>
    decreases scopes.len(),
{
    if scopes.len() == 0 {
        Seq::empty()
    } else {
        let prev = spec_down_all(scopes.drop_last(), name);
        match spec_scope_down(scopes.last(), name) {
            Some(s) => prev.push(s),
            None => prev,
        }
    }
}

/// Scopes of the files whose package is `package`.
pub open spec fn files_at(files: Seq<FileDescriptor>, package: Seq<Seq<char>>) -> Seq<ScopeView>
    decreases files.len(),
{
    if files.len() == 0 {
        Seq::empty()
    } else {
        let prev = files_at(files.drop_last(), package);
        if files.last().package@ == package {
            prev.push(ScopeView::File(files.last()))
        } else {
            prev
        }
    }
}

/// Files whose package lies strictly inside `package`.
pub open spec fn files_below(files: Seq<FileDescriptor>, package: Seq<Seq<char>>) -> Seq<
    FileDescriptor,
>
    decreases files.len(),
{
    if files.len() == 0 {
        Seq::empty()
    } else {
        let prev = files_below(files.drop_last(), package);
        if files.last().package@ != package && is_path_prefix(package, files.last().package@) {
            prev.push(files.last())
        } else {
            prev
        }
    }
}

/// A union of scopes as a value: its name, the scopes that have that name,
/// and the files whose package lies inside it.
pub struct UnionView {
    /// Full name of the union.
    pub path: Seq<Seq<char>>,
    /// Scopes with that name.
    pub scopes: Seq<ScopeView>,
    /// Files whose package is strictly inside the name.
    pub partial_scopes: Seq<FileDescriptor>,
}

/// Step a union of scopes down into `name`.
pub open spec fn spec_union_down(u: UnionView, name: Seq<char>) -> UnionView {
    let path = u.path.push(name);
    UnionView {
        path,
        scopes: spec_down_all(u.scopes, name) + files_at(u.partial_scopes, path),
        partial_scopes: files_below(u.partial_scopes, path),
    }
}

/// Step a union of scopes down along a relative path.
pub open spec fn spec_union_lookup(u: UnionView, path: Seq<Seq<char>>) -> UnionView
    decreases path.len(),
{
    if path.len() == 0 {
        u
    } else {
        spec_union_lookup(spec_union_down(u, path[0]), path.drop_first())
    }
}

/// Extensions of all the scopes, in order.
pub open spec fn scopes_extensions(scopes: Seq<ScopeView>) -> Seq<Extension>
    decreases scopes.len(),
{
    if scopes.len() == 0 {
        Seq::empty()
    } else {
        scopes_extensions(scopes.drop_last()) + scope_extensions(scopes.last())
    }
}

/// The scopes of all the files (and messages) that share one full name.
pub struct LookupScopeUnion<'a> {
    path: ProtobufAbsPath,
    scopes: Vec<LookupScope<'a>>,
    partial_scopes: Vec<&'a FileDescriptor>,
}

impl<'a> LookupScopeUnion<'a> {
    /// The union as a value.
    pub closed spec fn view(&self) -> UnionView {
        UnionView {
            path: self.path@,
            scopes: scopes_view(self.scopes@),
            partial_scopes: files_view(self.partial_scopes@),
        }
    }

    /// Copy of the union.
    pub fn clone_union(&self) -> (r: LookupScopeUnion<'a>)
        ensures
            r.view() == self.view(),
    {
        let mut scopes: Vec<LookupScope<'a>> = Vec::new();
        let mut i: usize = 0;
        while i < self.scopes.len()
            invariant
                i <= self.scopes@.len(),
                scopes_view(scopes@) == scopes_view(self.scopes@.take(i as int)),
            decreases self.scopes@.len() - i,
        {
            let ghost before = scopes@;
            scopes.push(self.scopes[i].clone_scope());
            assert(scopes_view(scopes@) =~= scopes_view(before).push(self.scopes@[i as int].view()));
            assert(scopes_view(self.scopes@.take(i + 1)) =~= scopes_view(
                self.scopes@.take(i as int),
            ).push(self.scopes@[i as int].view()));
            i = i + 1;
        }
        assert(self.scopes@.take(i as int) =~= self.scopes@);
        let mut partial_scopes: Vec<&'a FileDescriptor> = Vec::new();
        let mut i: usize = 0;
        while i < self.partial_scopes.len()
            invariant
                i <= self.partial_scopes@.len(),
                partial_scopes@ == self.partial_scopes@.take(i as int),
            decreases self.partial_scopes@.len() - i,
        {
            partial_scopes.push(self.partial_scopes[i]);
            assert(partial_scopes@ =~= self.partial_scopes@.take(i + 1));
            i = i + 1;
        }
        assert(self.partial_scopes@.take(i as int) =~= self.partial_scopes@);
        LookupScopeUnion { path: self.path.clone_path(), scopes, partial_scopes }
    }

    /// The union of the scopes named by this union's name followed by
    /// `name`.
    pub fn down(&self, name: &str) -> (r: LookupScopeUnion<'a>)
        ensures
            r.view() == spec_union_down(self.view(), name@),
    {
        let mut path: ProtobufAbsPath = self.path.clone_path();
        path.push_simple(name);

        let mut scopes: Vec<LookupScope<'a>> = Vec::new();
        let mut i: usize = 0;
        while i < self.scopes.len()
            invariant
                i <= self.scopes@.len(),
                scopes_view(scopes@) == spec_down_all(
                    scopes_view(self.scopes@.take(i as int)),
                    name@,
                ),
            decreases self.scopes@.len() - i,
        {
            let ghost before = scopes@;
            assert(scopes_view(self.scopes@.take(i + 1)).drop_last() =~= scopes_view(
                self.scopes@.take(i as int),
            ));
            if let Some(d) = self.scopes[i].down(name) {
                scopes.push(d);
                assert(scopes_view(scopes@) =~= scopes_view(before).push(d.view()));
            }
            i = i + 1;
        }
        assert(self.scopes@.take(i as int) =~= self.scopes@);
        let ghost down_scopes = scopes@;

        let mut partial_scopes: Vec<&'a FileDescriptor> = Vec::new();
        let ghost all = files_view(self.partial_scopes@);
        let mut i: usize = 0;
        while i < self.partial_scopes.len()
            invariant
                i <= self.partial_scopes@.len(),
                all == files_view(self.partial_scopes@),
                down_scopes.len() <= scopes@.len(),
                scopes_view(down_scopes) == spec_down_all(scopes_view(self.scopes@), name@),
                scopes@.take(down_scopes.len() as int) == down_scopes,
                scopes_view(scopes@.skip(down_scopes.len() as int)) == files_at(
                    all.take(i as int),
                    path@,
                ),
                files_view(partial_scopes@) == files_below(all.take(i as int), path@),
            decreases self.partial_scopes@.len() - i,
        {
            let partial_scope = self.partial_scopes[i];
            assert(all.take(i + 1).drop_last() =~= all.take(i as int));
            assert(all.take(i + 1).last() == *partial_scope);
            let ghost before_scopes = scopes@;
            let ghost before_partial = partial_scopes@;
            if partial_scope.package.path_eq(&path) {
                scopes.push(LookupScope::File(partial_scope));
                assert(scopes@.take(down_scopes.len() as int) =~= before_scopes.take(
                    down_scopes.len() as int,
                ));
                assert(scopes@.skip(down_scopes.len() as int) =~= before_scopes.skip(
                    down_scopes.len() as int,
                ).push(LookupScope::File(partial_scope)));
                assert(scopes_view(scopes@.skip(down_scopes.len() as int)) =~= scopes_view(
                    before_scopes.skip(down_scopes.len() as int),
                ).push(ScopeView::File(*partial_scope)));
            } else if partial_scope.package.starts_with(&path) {
                partial_scopes.push(partial_scope);
                assert(files_view(partial_scopes@) =~= files_view(before_partial).push(
                    *partial_scope,
                ));
            }
            i = i + 1;
        }
        assert(all.take(i as int) =~= all);
        proof {
            assert(scopes@ =~= down_scopes + scopes@.skip(down_scopes.len() as int));
            assert(scopes_view(scopes@) =~= scopes_view(down_scopes) + scopes_view(
                scopes@.skip(down_scopes.len() as int),
            ));
        }
        LookupScopeUnion { path, scopes, partial_scopes }
    }

    /// The union of the scopes named by this union's name followed by the
    /// names of `path`.
    pub fn lookup(&self, path: &ProtobufRelPath) -> (r: LookupScopeUnion<'a>)
        ensures
            r.view() == spec_union_lookup(self.view(), path@),
    {
        let mut scope = self.clone_union();
        assert(path@.skip(0) =~= path@);
        let mut i: usize = 0;
        while i < path.components.len()
            invariant
                i <= path@.len(),
                spec_union_lookup(self.view(), path@) == spec_union_lookup(
                    scope.view(),
                    path@.skip(i as int),
                ),
            decreases path@.len() - i,
        {
            assert(path@.skip(i as int)[0] == path.components@[i as int]@);
            assert(path@.skip(i as int).drop_first() =~= path@.skip(i + 1));
            scope = scope.down(path.components[i].as_str());
            i = i + 1;
        }
        assert(path@.skip(i as int) =~= Seq::<Seq<char>>::empty());
        scope
    }

    /// Extensions declared in all the scopes of the union.
    pub fn extensions(&self) -> (r: Vec<&'a Extension>)
        ensures
            r@.map_values(|e: &'a Extension| *e) == scopes_extensions(self.view().scopes),
    {
        let mut r: Vec<&'a Extension> = Vec::new();
        let mut i: usize = 0;
        while i < self.scopes.len()
            invariant
                i <= self.scopes@.len(),
                r@.map_values(|e: &'a Extension| *e) == scopes_extensions(
                    scopes_view(self.scopes@.take(i as int)),
                ),
            decreases self.scopes@.len() - i,
        {
            let exts = self.scopes[i].extensions();
            let ghost before = r@;
            let mut j: usize = 0;
            while j < exts.len()
                invariant
                    j <= exts@.len(),
                    i < self.scopes@.len(),
                    r@.map_values(|e: &'a Extension| *e) == before.map_values(
                        |e: &'a Extension| *e,
                    ) + scope_extensions(self.scopes@[i as int].view()).take(j as int),
                    exts@.len() == scope_extensions(self.scopes@[i as int].view()).len(),
                    forall|t: int|
                        0 <= t < exts@.len() ==> *(#[trigger] exts@[t]) == scope_extensions(
                            self.scopes@[i as int].view(),
                        )[t],
                decreases exts@.len() - j,
            {
                let ghost before_j = r@;
                r.push(exts[j]);
                assert(r@.map_values(|e: &'a Extension| *e) =~= before_j.map_values(
                    |e: &'a Extension| *e,
                ).push(*exts@[j as int]));
                assert(scope_extensions(self.scopes@[i as int].view()).take(j + 1)
                    =~= scope_extensions(self.scopes@[i as int].view()).take(j as int).push(
                    *exts@[j as int],
                ));
                assert(r@.map_values(|e: &'a Extension| *e) =~= before.map_values(
                    |e: &'a Extension| *e,
                ) + scope_extensions(self.scopes@[i as int].view()).take(j + 1));
                j = j + 1;
            }
            assert(scope_extensions(self.scopes@[i as int].view()).take(j as int)
                =~= scope_extensions(self.scopes@[i as int].view()));
            assert(scopes_view(self.scopes@.take(i + 1)).drop_last() =~= scopes_view(
                self.scopes@.take(i as int),
            ));
            i = i + 1;
        }
        assert(self.scopes@.take(i as int) =~= self.scopes@);
        r
    }
}

/// Scopes of the files in the root package.
pub open spec fn root_files(files: Seq<FileDescriptor>) -> Seq<ScopeView>
    decreases files.len(),
{
    if files.len() == 0 {
        Seq::empty()
    } else {
        let prev = root_files(files.drop_last());
        if files.last().package@.len() == 0 {
            prev.push(ScopeView::File(files.last()))
        } else {
            prev
        }
    }
}

/// Files outside the root package.
pub open spec fn non_root_files(files: Seq<FileDescriptor>) -> Seq<FileDescriptor>
    decreases files.len(),
{
    if files.len() == 0 {
        Seq::empty()
    } else {
        let prev = non_root_files(files.drop_last());
        if files.last().package@.len() != 0 {
            prev.push(files.last())
        } else {
            prev
        }
    }
}

/// Look an absolute path up in one file.
pub open spec fn spec_find_in_file(f: FileDescriptor, abs: Seq<Seq<char>>) -> Option<
    (Seq<Seq<char>>, Target),
> {
    if is_path_prefix(f.package@, abs) {
        spec_find_in(f.messages@, f.enums@, f.package@, abs.skip(f.package@.len() as int))
    } else {
        None
    }
}

/// Look an absolute path up in each file in turn; the first file where it
/// is found wins.
pub open spec fn spec_find_in_files(files: Seq<FileDescriptor>, abs: Seq<Seq<char>>) -> Option<
    (Seq<Seq<char>>, Target),
>
    decreases files.len(),
{
    if files.len() == 0 {
        None
    } else {
        match spec_find_in_file(files[0], abs) {
            Some(x) => Some(x),
            None => spec_find_in_files(files.drop_first(), abs),
        }
    }
}

/// Look a relative path up from the `i`-th enclosing scope of `scope`
/// outwards: in `scope` minus its last `i` names, then one name shorter,
/// up to the root package.
pub open spec fn spec_resolve_rel(
    files: Seq<FileDescriptor>,
    scope: Seq<Seq<char>>,
    rel: Seq<Seq<char>>,
    i: nat,
) -> Option<(Seq<Seq<char>>, Target)>
    decreases scope.len() + 1 - i,
{
    if i > scope.len() {
        None
    } else {
        match spec_find_in_files(files, scope.take(scope.len() - i) + rel) {
            Some(x) => Some(x),
            None => spec_resolve_rel(files, scope, rel, i + 1),
        }
    }
}

/// Resolves names in a file, looking in the file itself and its
/// dependencies.
pub struct TypeResolver<'a> {
    /// The file whose names are resolved.
    pub current_file: &'a FileDescriptor,
    /// Its dependencies.
    pub deps: &'a [FileDescriptorPair],
}

impl<'a> TypeResolver<'a> {
    /// The file and its dependencies, in that order.
    pub open spec fn files(&self) -> Seq<FileDescriptor> {
        seq![*self.current_file] + self.deps@.map_values(|p: FileDescriptorPair| p.parsed)
    }

    /// The file, then its dependencies.
    pub fn all_files(&self) -> (r: Vec<&'a FileDescriptor>)
        ensures
            files_view(r@) == self.files(),
    {
        let mut r: Vec<&'a FileDescriptor> = Vec::new();
        r.push(self.current_file);
        let mut i: usize = 0;
        while i < self.deps.len()
            invariant
                i <= self.deps@.len(),
                files_view(r@) == seq![*self.current_file] + self.deps@.take(i as int).map_values(
                    |p: FileDescriptorPair| p.parsed,
                ),
            decreases self.deps@.len() - i,
        {
            let ghost before = r@;
            r.push(&self.deps[i].parsed);
            assert(files_view(r@) =~= files_view(before).push(self.deps@[i as int].parsed));
            assert(self.deps@.take(i + 1).map_values(|p: FileDescriptorPair| p.parsed)
                =~= self.deps@.take(i as int).map_values(|p: FileDescriptorPair| p.parsed).push(
                self.deps@[i as int].parsed,
            ));
            i = i + 1;
        }
        assert(self.deps@.take(i as int) =~= self.deps@);
        r
    }

    /// The union of the scopes of the root package: the files in it, with
    /// all the other files as partial scopes.
    pub fn root_scope(&self) -> (r: LookupScopeUnion<'a>)
        ensures
            r.view() == (UnionView {
                path: Seq::empty(),
                scopes: root_files(self.files()),
                partial_scopes: non_root_files(self.files()),
            }),
    {
        let files = self.all_files();
        let mut scopes: Vec<LookupScope<'a>> = Vec::new();
        let mut partial_scopes: Vec<&'a FileDescriptor> = Vec::new();
        let ghost all = files_view(files@);
        let mut i: usize = 0;
        while i < files.len()
            invariant
                i <= files@.len(),
                all == files_view(files@),
                scopes_view(scopes@) == root_files(all.take(i as int)),
                files_view(partial_scopes@) == non_root_files(all.take(i as int)),
            decreases files@.len() - i,
        {
            let f = files[i];
            assert(all.take(i + 1).drop_last() =~= all.take(i as int));
            let ghost bs = scopes@;
            let ghost bp = partial_scopes@;
            if f.package.is_root() {
                scopes.push(LookupScope::File(f));
                assert(scopes_view(scopes@) =~= scopes_view(bs).push(ScopeView::File(*f)));
            } else {
                partial_scopes.push(f);
                assert(files_view(partial_scopes@) =~= files_view(bp).push(*f));
            }
            i = i + 1;
        }
        assert(all.take(i as int) =~= all);
        let r = LookupScopeUnion { path: ProtobufAbsPath::root(), scopes, partial_scopes };
        r
    }

    /// Find a message or an enum by its fully qualified name: in the first
    /// file (the current one, then the dependencies) whose package is a
    /// prefix of the name and that has it.
    pub fn find_message_or_enum_by_abs_name(&self, absolute_path: &ProtobufAbsPath) -> (r: Result<
        WithFullName<MessageOrEnum<'a>>,
        TypeResolverError,
    >)
        ensures
            match spec_find_in_files(self.files(), absolute_path@) {
                Some((full_name, t)) => r matches Ok(w) && w.full_name@ == full_name
                    && w.t.target() == t,
                None => r matches Err(TypeResolverError::NotFoundByAbsPath(p)) && p@
                    == absolute_path@,
            },
    {
        let files = self.all_files();
        let ghost all = files_view(files@);
        let mut i: usize = 0;
        assert(all.skip(0) =~= all);
        while i < files.len()
            invariant
                i <= files@.len(),
                all == files_view(files@),
                all == self.files(),
                spec_find_in_files(all, absolute_path@) == spec_find_in_files(
                    all.skip(i as int),
                    absolute_path@,
                ),
            decreases files@.len() - i,
        {
            let file = files[i];
            assert(all.skip(i as int)[0] == *file);
            assert(all.skip(i as int).drop_first() =~= all.skip(i + 1));
            if let Some(relative) = absolute_path.remove_prefix(&file.package) {
                assert(relative@ =~= absolute_path@.skip(file.package@.len() as int));
                if let Some(w) = LookupScope::File(file).find_message_or_enum(&relative) {
                    return Ok(w);
                }
            }
            i = i + 1;
        }
        assert(all.skip(i as int) =~= Seq::<FileDescriptor>::empty());
        Err(TypeResolverError::NotFoundByAbsPath(absolute_path.clone_path()))
    }

    /// Resolve a name written in scope `scope`: an absolute name directly,
    /// a relative one in the scope, then in each enclosing scope outwards.
    #[verifier::loop_isolation(false)]
    pub fn resolve_message_or_enum(&self, scope: &ProtobufAbsPath, name: &ProtobufPath) -> (r:
        Result<WithFullName<MessageOrEnum<'a>>, TypeResolverError>)
        ensures
            match name {
                ProtobufPath::Abs(abs) => match spec_find_in_files(self.files(), abs@) {
                    Some((full_name, t)) => r matches Ok(w) && w.full_name@ == full_name
                        && w.t.target() == t,
                    None => r matches Err(TypeResolverError::NotFoundByAbsPath(p)) && p@ == abs@,
                },
                ProtobufPath::Rel(rel) => match spec_resolve_rel(self.files(), scope@, rel@, 0) {
                    Some((full_name, t)) => r matches Ok(w) && w.full_name@ == full_name
                        && w.t.target() == t,
                    None => r matches Err(TypeResolverError::NotFoundByRelPath(n, s)) && n@
                        == rel@ && s@ == scope@,
                },
            },
    {
        match name {
            ProtobufPath::Abs(name) => self.find_message_or_enum_by_abs_name(name),
            ProtobufPath::Rel(name) => {
                // find message or enum in current package
                let parents = scope.self_and_parents();
                let mut i: usize = 0;
                while i < parents.len()
                    invariant
                        i <= parents@.len(),
                        parents@.len() == scope@.len() + 1,
                        forall|j: int|
                            0 <= j < parents@.len() ==> (#[trigger] parents@[j])@ == scope@.take(
                                scope@.len() - j,
                            ),
                        spec_resolve_rel(self.files(), scope@, name@, 0) == spec_resolve_rel(
                            self.files(),
                            scope@,
                            name@,
                            i as nat,
                        ),
                    decreases parents@.len() - i,
                {
                    let mut fq = parents[i].clone_path();
                    fq.push_relative(name);
                    if let Ok(me) = self.find_message_or_enum_by_abs_name(&fq) {
                        return Ok(me);
                    }
                    i = i + 1;
                }
                Err(TypeResolverError::NotFoundByRelPath(name.clone_path(), scope.clone_path()))
            },
        }
    }
}

/// What is found by absolute name has that name.
pub proof fn lemma_find_by_abs_name_full_name(files: Seq<FileDescriptor>, abs: Seq<Seq<char>>)
    ensures
        spec_find_in_files(files, abs) matches Some((full_name, _)) ==> full_name == abs,
    decreases files.len(),
{
    if files.len() > 0 {
        let f = files[0];
        if is_path_prefix(f.package@, abs) {
            let rel = abs.skip(f.package@.len() as int);
            lemma_find_in_full_name(f.messages@, f.enums@, f.package@, rel);
            assert(f.package@ + rel =~= abs);
        }
        lemma_find_by_abs_name_full_name(files.drop_first(), abs);
    }
}

/// What a relative name resolves to is named by an enclosing scope of the
/// place where it is written (or that place itself), followed by the name.
pub proof fn lemma_resolve_rel_full_name(
    files: Seq<FileDescriptor>,
    scope: Seq<Seq<char>>,
    rel: Seq<Seq<char>>,
    i: nat,
)
    ensures
        spec_resolve_rel(files, scope, rel, i) matches Some((full_name, _)) ==> exists|
            k: int,
        |
            0 <= k <= scope.len() && full_name == #[trigger] scope.take(k) + rel,
    decreases scope.len() + 1 - i,
{
    if i <= scope.len() {
        let candidate = scope.take(scope.len() - i) + rel;
        lemma_find_by_abs_name_full_name(files, candidate);
        if spec_find_in_files(files, candidate) is None {
            lemma_resolve_rel_full_name(files, scope, rel, i + 1);
        }
    }
}

/// Resolution from the `i`-th enclosing scope outwards finds the name in
/// the innermost of the scopes it tries where absolute lookup finds it:
/// what it returns is what absolute lookup gives in scope `m`, and no scope
/// between `m` and where it starts holds the name; when it finds nothing,
/// no scope it tries holds the name.
proof fn lemma_resolve_rel_from(
    files: Seq<FileDescriptor>,
    scope: Seq<Seq<char>>,
    rel: Seq<Seq<char>>,
    i: nat,
)
    ensures
        match spec_resolve_rel(files, scope, rel, i) {
            Some(x) => exists|m: int|
                0 <= m <= scope.len() - i && spec_find_in_files(files, #[trigger] scope.take(m) + rel)
                    == Some(x) && forall|j: int|
                    m < j <= scope.len() - i ==> spec_find_in_files(
                        files,
                        #[trigger] scope.take(j) + rel,
                    ) is None,
            None => forall|j: int|
                0 <= j <= scope.len() - i ==> spec_find_in_files(files, #[trigger] scope.take(j) + rel)
                    is None,
        },
    decreases scope.len() + 1 - i,
{
    if i <= scope.len() {
        let top = scope.len() - i;
        let candidate = scope.take(top) + rel;
        if spec_find_in_files(files, candidate) is None {
            lemma_resolve_rel_from(files, scope, rel, i + 1);
            match spec_resolve_rel(files, scope, rel, i + 1) {
                Some(x) => {
                    let m = choose|m: int|
                        0 <= m <= scope.len() - (i + 1) && spec_find_in_files(
                            files,
                            #[trigger] scope.take(m) + rel,
                        ) == Some(x) && forall|j: int|
                            m < j <= scope.len() - (i + 1) ==> spec_find_in_files(
                                files,
                                #[trigger] scope.take(j) + rel,
                            ) is None;
                    assert forall|j: int| m < j <= top implies spec_find_in_files(
                        files,
                        #[trigger] scope.take(j) + rel,
                    ) is None by {
                        if j == top {
                        }
                    }
                },
                None => {},
            }
        } else {
            assert(spec_find_in_files(files, scope.take(top) + rel) == spec_resolve_rel(
                files,
                scope,
                rel,
                i,
            ));
        }
    }
}

/// A relative name written in `scope` resolves in the innermost enclosing
/// scope where it exists: the scope itself first, then its parents
/// outwards, up to the root package. The result is what absolute lookup
/// finds for `scope.take(m) + rel` for some `m`, and no longer prefix of
/// the scope holds the name; there is a result exactly when some prefix
/// holds it. In particular a name that exists right in `scope` resolves
/// there, whatever the enclosing scopes hold.
pub proof fn lemma_resolve_rel_innermost(
    files: Seq<FileDescriptor>,
    scope: Seq<Seq<char>>,
    rel: Seq<Seq<char>>,
)
    ensures
        spec_resolve_rel(files, scope, rel, 0) is Some <==> exists|j: int|
            0 <= j <= scope.len() && spec_find_in_files(files, #[trigger] scope.take(j) + rel)
                is Some,
        spec_resolve_rel(files, scope, rel, 0) matches Some(x) ==> exists|m: int|
            0 <= m <= scope.len() && spec_find_in_files(files, #[trigger] scope.take(m) + rel)
                == Some(x) && forall|j: int|
                m < j <= scope.len() ==> spec_find_in_files(files, #[trigger] scope.take(j) + rel)
                    is None,
        spec_find_in_files(files, scope + rel) is Some ==> spec_resolve_rel(files, scope, rel, 0)
            == spec_find_in_files(files, scope + rel),
        spec_find_in_files(files, scope + rel) is Some ==> (spec_resolve_rel(
            files,
            scope,
            rel,
            0,
        ) matches Some((full_name, _)) && full_name == scope + rel),
{
    lemma_resolve_rel_from(files, scope, rel, 0);
    assert(scope.take(scope.len() as int) =~= scope);
    if spec_find_in_files(files, scope + rel) is Some {
        lemma_find_by_abs_name_full_name(files, scope + rel);
    }
    if spec_resolve_rel(files, scope, rel, 0) is None {
        assert forall|j: int| 0 <= j <= scope.len() implies spec_find_in_files(
            files,
            #[trigger] scope.take(j) + rel,
        ) is None by {}
    } else {
        let x = spec_resolve_rel(files, scope, rel, 0).unwrap();
        let m = choose|m: int|
            0 <= m <= scope.len() && spec_find_in_files(files, #[trigger] scope.take(m) + rel)
                == Some(x) && forall|j: int|
                m < j <= scope.len() ==> spec_find_in_files(files, #[trigger] scope.take(j) + rel)
                    is None;
        assert(spec_find_in_files(files, scope.take(m) + rel) is Some);
    }
}

} // verus!
