//! Index of a file descriptor: every message, enum and oneof of a file in
//! one flat list, with the names and numbers by which they are found.

use std::collections::HashMap;

use vstd::prelude::*;

use crate::descriptor::DescriptorProto;
use crate::descriptor::EnumDescriptorProto;
use crate::descriptor::EnumValueDescriptorProto;
use crate::descriptor::FieldDescriptorProto;
use crate::descriptor::FileDescriptorProto;
use crate::model::FileDescriptor;
use crate::name::concat_paths;
use crate::name::spec_concat_paths;
use crate::str_map::StrIndexMap;

verus! {

broadcast use vstd::std_specs::hash::group_hash_axioms;

/// The message found by following `path` (indices into the message lists,
/// outermost first) from the list `messages`.
pub open spec fn spec_message_at(messages: Seq<DescriptorProto>, path: Seq<usize>) -> Option<
    DescriptorProto,
>
    decreases path.len(),
{
    if path.len() == 0 || path[0] >= messages.len() {
        None
    } else if path.len() == 1 {
        Some(messages[path[0] as int])
    } else {
        spec_message_at(messages[path[0] as int].nested_type@, path.drop_first())
    }
}

/// Following one more index leads to a nested type.
pub proof fn lemma_message_at_push(
    messages: Seq<DescriptorProto>,
    path: Seq<usize>,
    m: DescriptorProto,
    i: usize,
)
    requires
        spec_message_at(messages, path) == Some(m),
        i < m.nested_type@.len(),
    ensures
        spec_message_at(messages, path.push(i)) == Some(m.nested_type@[i as int]),
    decreases path.len(),
{
    if path.len() == 1 {
        assert(path.push(i).drop_first() =~= seq![i]);
    } else {
        assert(path.push(i).drop_first() =~= path.drop_first().push(i));
        lemma_message_at_push(messages[path[0] as int].nested_type@, path.drop_first(), m, i);
    }
}

/// Name of a message relative to the file's package: the names on its path
/// joined by dots.
pub open spec fn spec_name_to_package(messages: Seq<DescriptorProto>, path: Seq<usize>) -> Seq<
    char,
>
    decreases path.len(),
{
    let name = spec_message_at(messages, path).unwrap().name@;
    if path.len() <= 1 {
        name
    } else {
        spec_concat_paths(spec_name_to_package(messages, path.drop_last()), name)
    }
}

/// Path to a message: indices into the message lists, outermost first.
pub struct MessagePath(pub Vec<usize>);

impl MessagePath {
    /// Find the message this path leads to.
    pub fn eval<'a>(&self, file: &'a FileDescriptorProto) -> (r: Option<&'a DescriptorProto>)
        ensures
            r matches Some(m) ==> spec_message_at(file.message_type@, self.0@) == Some(*m),
            r is None ==> spec_message_at(file.message_type@, self.0@) is None,
    {
        let path = &self.0;
        if path.len() == 0 {
            return None;
        }
        if path[0] >= file.message_type.len() {
            return None;
        }
        let mut message: &'a DescriptorProto = &file.message_type[path[0]];
        let mut i: usize = 1;
        proof {
            lemma_message_at_first(file.message_type@, path@);
        }
        while i < path.len()
            invariant
                1 <= i <= path@.len(),
                path@ == self.0@,
                spec_message_at(file.message_type@, path@.take(i as int)) == Some(*message),
            decreases path@.len() - i,
        {
            let p = path[i];
            if p >= message.nested_type.len() {
                proof {
                    lemma_message_at_extend_none(file.message_type@, path@, i as int, *message);
                }
                return None;
            }
            proof {
                lemma_message_at_push(file.message_type@, path@.take(i as int), *message, p);
                assert(path@.take(i as int).push(p) =~= path@.take(i + 1));
            }
            message = &message.nested_type[p];
            i = i + 1;
        }
        assert(path@.take(i as int) =~= path@);
        Some(message)
    }
}

/// The first step of a path.
proof fn lemma_message_at_first(messages: Seq<DescriptorProto>, path: Seq<usize>)
    requires
        path.len() >= 1,
        path[0] < messages.len(),
    ensures
        spec_message_at(messages, path.take(1)) == Some(messages[path[0] as int]),
{
}

/// A path that leaves the tree leads nowhere, however it goes on.
proof fn lemma_message_at_extend_none(
    messages: Seq<DescriptorProto>,
    path: Seq<usize>,
    i: int,
    m: DescriptorProto,
)
    requires
        1 <= i < path.len(),
        spec_message_at(messages, path.take(i)) == Some(m),
        path[i] >= m.nested_type@.len(),
    ensures
        spec_message_at(messages, path) is None,
    decreases i,
{
    if i == 1 {
        assert(path.drop_first()[0] == path[1]);
        lemma_message_at_none_tail(m.nested_type@, path.drop_first());
    } else {
        assert(path.take(i).drop_first() =~= path.drop_first().take(i - 1));
        lemma_message_at_extend_none(
            messages[path[0] as int].nested_type@,
            path.drop_first(),
            i - 1,
            m,
        );
    }
}

proof fn lemma_message_at_none_tail(messages: Seq<DescriptorProto>, path: Seq<usize>)
    requires
        path.len() >= 1,
        path[0] >= messages.len(),
    ensures
        spec_message_at(messages, path) is None,
{
}

/// Path to an enum: the enclosing message (empty for a top-level enum) and
/// the enum's index among that message's (or the file's) enums.
pub struct EnumPath {
    /// Path to the enclosing message.
    pub message_path: MessagePath,
    /// Index of the enum in its enclosing message or file.
    pub enum_index: usize,
}

/// Value index by number: each number maps to the last value that has it.
pub open spec fn values_by_number(values: Seq<EnumValueDescriptorProto>) -> Map<i32, usize>
    decreases values.len(),
{
    if values.len() == 0 {
        Map::empty()
    } else {
        values_by_number(values.drop_last()).insert(
            values.last().number,
            (values.len() - 1) as usize,
        )
    }
}

/// Value index by name: each name maps to the last value that has it.
pub open spec fn values_by_name(values: Seq<EnumValueDescriptorProto>) -> Map<Seq<char>, usize>
    decreases values.len(),
{
    if values.len() == 0 {
        Map::empty()
    } else {
        values_by_name(values.drop_last()).insert(
            values.last().name@,
            (values.len() - 1) as usize,
        )
    }
}

/// Index of an enum of a file.
pub struct EnumIndex {
    /// Where the enum is.
    pub enum_path: EnumPath,
    /// Name relative to the package.
    pub name_to_package: String,
    /// Fully qualified name.
    pub full_name: String,
    /// Index of the enclosing message, `None` for a top-level enum.
    pub enclosing_message: Option<usize>,
    /// Value index by name.
    pub index_by_name: StrIndexMap,
    /// Value index by number.
    pub index_by_number: HashMap<i32, usize>,
}

impl EnumIndex {
    /// Index the values of an enum.
    pub fn new(
        enum_path: EnumPath,
        name_to_package: String,
        enclosing_message: Option<usize>,
        proto: &EnumDescriptorProto,
        file: &FileDescriptorProto,
    ) -> (r: EnumIndex)
        ensures
            r.enum_path == enum_path,
            r.name_to_package@ == name_to_package@,
            r.full_name@ == spec_concat_paths(file.package@, name_to_package@),
            r.enclosing_message == enclosing_message,
            r.index_by_name@ == values_by_name(proto.value@),
            r.index_by_number@ == values_by_number(proto.value@),
    {
        let mut index_by_name = StrIndexMap::new();
        let mut index_by_number: HashMap<i32, usize> = HashMap::new();
        let mut i: usize = 0;
        while i < proto.value.len()
            invariant
                i <= proto.value@.len(),
                index_by_name@ == values_by_name(proto.value@.take(i as int)),
                index_by_number@ == values_by_number(proto.value@.take(i as int)),
            decreases proto.value@.len() - i,
        {
            let v = &proto.value[i];
            index_by_number.insert(v.number, i);
            index_by_name.insert(v.name.clone(), i);
            assert(proto.value@.take(i + 1).drop_last() =~= proto.value@.take(i as int));
            i = i + 1;
        }
        assert(proto.value@.take(i as int) =~= proto.value@);
        let full_name = concat_paths(file.package.as_str(), name_to_package.as_str());
        EnumIndex {
            enum_path,
            full_name,
            name_to_package,
            enclosing_message,
            index_by_name,
            index_by_number,
        }
    }
}

/// Index of a field of a file.
///
/// Resolution of the field's type is not part of this index.
pub struct FieldIndex {
    /// JSON name of the field.
    pub json_name: String,
}

impl FieldIndex {
    /// Index one field.
    pub fn index(_containing_message: Option<usize>, field: &FieldDescriptorProto) -> (r:
        FieldIndex)
        ensures
            r.json_name@ == field.json_name@,
    {
        FieldIndex { json_name: field.json_name.clone() }
    }
}

/// Fields of one message: where they are in the file's field list, and how
/// they are found by name and by number.
pub struct MessageFieldsIndex {
    /// Index of the first field in global field index.
    pub first_field_index: usize,
    /// Number of fields.
    pub field_count: usize,
    /// Local field index by name.
    pub field_index_by_name: StrIndexMap,
    /// Local field index by name or by JSON name.
    pub field_index_by_name_or_json_name: StrIndexMap,
    /// Local field index by number.
    pub field_index_by_number: HashMap<u32, usize>,
    /// Extensions declared in the message.
    pub extensions: Vec<FieldIndex>,
}

impl Default for MessageFieldsIndex {
    fn default() -> (r: MessageFieldsIndex)
        ensures
            r.first_field_index == 0,
            r.field_count == 0,
            r.field_index_by_name@ == Map::<Seq<char>, usize>::empty(),
            r.field_index_by_name_or_json_name@ == Map::<Seq<char>, usize>::empty(),
            r.field_index_by_number@ == Map::<u32, usize>::empty(),
            r.extensions@.len() == 0,
    {
        MessageFieldsIndex {
            first_field_index: 0,
            field_count: 0,
            field_index_by_name: StrIndexMap::new(),
            field_index_by_name_or_json_name: StrIndexMap::new(),
            field_index_by_number: HashMap::new(),
            extensions: Vec::new(),
        }
    }
}

impl MessageFieldsIndex {
    /// The fields of this message among all the fields of the file.
    pub fn slice_fields<'a>(&self, file_fields: &'a [FieldIndex]) -> (r: &'a [FieldIndex])
        requires
            self.first_field_index + self.field_count <= file_fields@.len(),
        ensures
            r@ == file_fields@.subrange(
                self.first_field_index as int,
                self.first_field_index + self.field_count,
            ),
    {
        let _n = file_fields.len();
        vstd::slice::slice_subrange(
            file_fields,
            self.first_field_index,
            self.first_field_index + self.field_count,
        )
    }
}

/// Index of a oneof of a file.
pub struct OneofIndex {
    /// Index of the message that declares the oneof.
    pub containing_message: usize,
    /// Index of the oneof among the message's oneofs.
    pub index_in_containing_message: usize,
    /// Synthetic oneof for proto3 optional field.
    pub synthetic: bool,
    /// Indices of the member fields among the message's fields.
    pub fields: Vec<usize>,
}

/// Index of a message of a file.
pub struct MessageIndex {
    /// Where the message is.
    pub path: MessagePath,
    /// Simple name.
    pub name: String,
    /// Name relative to the package.
    pub name_to_package: String,
    /// Fully qualified name.
    pub full_name: String,
    /// Index of the enclosing message, `None` for a top-level message.
    pub enclosing_message: Option<usize>,
    /// Indices of the nested messages, in declaration order.
    pub nested_messages: Vec<usize>,
    /// The message is a map entry.
    pub map_entry: bool,
    /// Index of the first nested enum in the file's enum list.
    pub first_enum_index: usize,
    /// Number of nested enums.
    pub enum_count: usize,
    /// Index of the first oneof in the file's oneof list.
    pub first_oneof_index: usize,
    /// Number of oneofs.
    pub oneof_count: usize,
    /// The message's fields.
    pub message_index: MessageFieldsIndex,
}

/// Indices of the fields among the first `n` that are members of oneof
/// number `oneof`, in order.
pub open spec fn oneof_field_indices(fields: Seq<FieldDescriptorProto>, n: nat, oneof: i32) -> Seq<
    usize,
>
    decreases n,
{
    if n == 0 {
        seq![]
    } else {
        let prev = oneof_field_indices(fields, (n - 1) as nat, oneof);
        if fields[n - 1].oneof_index == Some(oneof) {
            prev.push((n - 1) as usize)
        } else {
            prev
        }
    }
}

/// The indices collected for a oneof are below `n`.
pub proof fn lemma_oneof_field_indices_bound(fields: Seq<FieldDescriptorProto>, n: nat, oneof: i32)
    ensures
        forall|j: int|
            0 <= j < oneof_field_indices(fields, n, oneof).len() ==> #[trigger] oneof_field_indices(
                fields,
                n,
                oneof,
            )[j] < n,
    decreases n,
{
    if n > 0 {
        lemma_oneof_field_indices_bound(fields, (n - 1) as nat, oneof);
        let prev = oneof_field_indices(fields, (n - 1) as nat, oneof);
        assert forall|j: int| 0 <= j < prev.len() implies #[trigger] prev[j] < n by {}
        if fields[n - 1].oneof_index == Some(oneof) {
            assert forall|j: int| 0 <= j < prev.len() + 1 implies #[trigger] prev.push(
                (n - 1) as usize,
            )[j] < n by {
                if j < prev.len() {
                    assert(prev.push((n - 1) as usize)[j] == prev[j]);
                }
            }
        }
    }
}

/// Message path `p` is a prefix of message path `q`: `q` leads to `p` or
/// to a message nested in it.
pub open spec fn path_has_prefix(p: Seq<usize>, q: Seq<usize>) -> bool {
    p.len() <= q.len() && q.take(p.len() as int) == p
}

/// No two entries of the list have the same path.
pub open spec fn paths_distinct(messages: Seq<MessageIndex>, lo: int) -> bool {
    forall|k1: int, k2: int|
        lo <= k1 < k2 < messages.len() ==> (#[trigger] messages[k1]).path.0@ != (
        #[trigger] messages[k2]).path.0@
}

/// A path below `p.push(i)` is below `p`, one step further down at `i`.
proof fn lemma_path_prefix_push(p: Seq<usize>, i: usize, q: Seq<usize>)
    requires
        path_has_prefix(p.push(i), q),
    ensures
        path_has_prefix(p, q),
        q.len() > p.len(),
        q[p.len() as int] == i,
{
    assert(q.take(p.len() as int) =~= q.take(p.len() as int + 1).take(p.len() as int));
    assert(p.push(i).take(p.len() as int) =~= p);
    assert(q.take(p.len() as int + 1)[p.len() as int] == i);
}

/// `a` is a prefix of `b`.
pub open spec fn is_prefix<T>(a: Seq<T>, b: Seq<T>) -> bool {
    a.len() <= b.len() && forall|i: int| 0 <= i < a.len() ==> #[trigger] b[i] == a[i]
}

/// An enum index entry describes enum `proto`, number `enum_index` of the
/// message at `message_path` (of the file, when the path is empty).
pub open spec fn enum_index_ok(
    file: FileDescriptorProto,
    e: EnumIndex,
    message_path: Seq<usize>,
    enum_index: int,
    proto: EnumDescriptorProto,
    name_to_package: Seq<char>,
    enclosing_message: Option<usize>,
) -> bool {
    &&& e.enum_path.message_path.0@ == message_path
    &&& e.enum_path.enum_index == enum_index
    &&& e.name_to_package@ == name_to_package
    &&& e.full_name@ == spec_concat_paths(file.package@, name_to_package)
    &&& e.enclosing_message == enclosing_message
    &&& e.index_by_name@ == values_by_name(proto.value@)
    &&& e.index_by_number@ == values_by_number(proto.value@)
}

/// A oneof index entry describes oneof number `i` of message `proto`, which
/// has index `k`.
pub open spec fn oneof_index_ok(o: OneofIndex, proto: DescriptorProto, k: int, i: int) -> bool {
    &&& o.containing_message == k
    &&& o.index_in_containing_message == i
    &&& o.fields@ == oneof_field_indices(proto.field@, proto.field@.len(), i as i32)
    &&& o.synthetic == (o.fields@.len() == 1 && proto.field@[o.fields@[0] as int].proto3_optional)
}

/// Entry `k` of `messages` describes the message at its path, and its
/// nested messages, enums and oneofs are indexed.
pub open spec fn message_index_ok(
    file: FileDescriptorProto,
    messages: Seq<MessageIndex>,
    enums: Seq<EnumIndex>,
    oneofs: Seq<OneofIndex>,
    k: int,
) -> bool {
    let mi = messages[k];
    let path = mi.path.0@;
    &&& 0 <= k < messages.len()
    &&& spec_message_at(file.message_type@, path) is Some
    &&& {
        let proto = spec_message_at(file.message_type@, path).unwrap();
        &&& mi.name@ == proto.name@
        &&& mi.name_to_package@ == spec_name_to_package(file.message_type@, path)
        &&& mi.full_name@ == spec_concat_paths(file.package@, mi.name_to_package@)
        &&& (path.len() == 1 ==> mi.enclosing_message is None)
        &&& (path.len() > 1 ==> mi.enclosing_message is Some && mi.enclosing_message.unwrap() < k
            && messages[mi.enclosing_message.unwrap() as int].path.0@ == path.drop_last())
        &&& mi.map_entry == proto.map_entry
        &&& mi.nested_messages@.len() == proto.nested_type@.len()
        &&& forall|i: int|
            0 <= i < mi.nested_messages@.len() ==> k < #[trigger] mi.nested_messages@[i]
                < messages.len() && messages[mi.nested_messages@[i] as int].path.0@ == path.push(
                i as usize,
            ) && messages[mi.nested_messages@[i] as int].enclosing_message == Some(k as usize)
        &&& mi.enum_count == proto.enum_type@.len()
        &&& mi.first_enum_index + mi.enum_count <= enums.len()
        &&& forall|j: int|
            0 <= j < mi.enum_count ==> enum_index_ok(
                file,
                #[trigger] enums[mi.first_enum_index + j],
                path,
                j,
                proto.enum_type@[j],
                spec_concat_paths(mi.name_to_package@, proto.enum_type@[j].name@),
                Some(k as usize),
            )
        &&& mi.oneof_count == proto.oneof_decl@.len()
        &&& mi.first_oneof_index + mi.oneof_count <= oneofs.len()
        &&& forall|j: int|
            0 <= j < mi.oneof_count ==> oneof_index_ok(
                #[trigger] oneofs[mi.first_oneof_index + j],
                proto,
                k,
                j,
            )
    }
}

/// Two message entries agree on everything but the field index.
pub open spec fn same_layout(a: MessageIndex, b: MessageIndex) -> bool {
    &&& a.path.0@ == b.path.0@
    &&& a.name@ == b.name@
    &&& a.name_to_package@ == b.name_to_package@
    &&& a.full_name@ == b.full_name@
    &&& a.enclosing_message == b.enclosing_message
    &&& a.nested_messages@ == b.nested_messages@
    &&& a.map_entry == b.map_entry
    &&& a.first_enum_index == b.first_enum_index
    &&& a.enum_count == b.enum_count
    &&& a.first_oneof_index == b.first_oneof_index
    &&& a.oneof_count == b.oneof_count
}

/// Every entry of `m1` keeps its path (and the entries that are checked keep
/// their layout) in `m2`.
pub open spec fn same_paths(m1: Seq<MessageIndex>, m2: Seq<MessageIndex>) -> bool {
    m1.len() <= m2.len() && forall|j: int|
        0 <= j < m1.len() ==> (#[trigger] m2[j]).path.0@ == m1[j].path.0@ && m2[j].enclosing_message
            == m1[j].enclosing_message
}

/// Growing the lists, without moving what is there, keeps an entry valid.
pub proof fn lemma_message_index_ok_frame(
    file: FileDescriptorProto,
    m1: Seq<MessageIndex>,
    e1: Seq<EnumIndex>,
    o1: Seq<OneofIndex>,
    m2: Seq<MessageIndex>,
    e2: Seq<EnumIndex>,
    o2: Seq<OneofIndex>,
    k: int,
)
    requires
        message_index_ok(file, m1, e1, o1, k),
        same_paths(m1, m2),
        same_layout(m1[k], m2[k]),
        is_prefix(e1, e2),
        is_prefix(o1, o2),
    ensures
        message_index_ok(file, m2, e2, o2, k),
{
    let mi = m1[k];
    let proto = spec_message_at(file.message_type@, mi.path.0@).unwrap();
    assert forall|j: int| 0 <= j < mi.enum_count implies enum_index_ok(
        file,
        #[trigger] e2[mi.first_enum_index + j],
        mi.path.0@,
        j,
        proto.enum_type@[j],
        spec_concat_paths(mi.name_to_package@, proto.enum_type@[j].name@),
        Some(k as usize),
    ) by {
        assert(e2[mi.first_enum_index + j] == e1[mi.first_enum_index + j]);
    }
    assert forall|j: int| 0 <= j < mi.oneof_count implies oneof_index_ok(
        #[trigger] o2[mi.first_oneof_index + j],
        proto,
        k,
        j,
    ) by {
        assert(o2[mi.first_oneof_index + j] == o1[mi.first_oneof_index + j]);
    }
}

/// Entries `lo..` of `m1` stay valid when the lists grow.
pub proof fn lemma_message_index_ok_frame_range(
    file: FileDescriptorProto,
    m1: Seq<MessageIndex>,
    e1: Seq<EnumIndex>,
    o1: Seq<OneofIndex>,
    m2: Seq<MessageIndex>,
    e2: Seq<EnumIndex>,
    o2: Seq<OneofIndex>,
    lo: int,
)
    requires
        forall|k: int| lo <= k < m1.len() ==> message_index_ok(file, m1, e1, o1, k),
        same_paths(m1, m2),
        forall|k: int| lo <= k < m1.len() ==> same_layout(m1[k], #[trigger] m2[k]),
        is_prefix(e1, e2),
        is_prefix(o1, o2),
    ensures
        forall|k: int| lo <= k < m1.len() ==> message_index_ok(file, m2, e2, o2, k),
{
    assert forall|k: int| lo <= k < m1.len() implies message_index_ok(file, m2, e2, o2, k) by {
        assert(same_layout(m1[k], m2[k]));
        lemma_message_index_ok_frame(file, m1, e1, o1, m2, e2, o2, k);
    }
}

/// Paths of message `m`, found at `path`, and of the messages nested in it,
/// in depth-first order: the message first, then each nested message with
/// what it holds, in declaration order.
pub open spec fn message_tree_paths(m: DescriptorProto, path: Seq<usize>) -> Seq<Seq<usize>>
    decreases m, 0nat,
{
    seq![path] + messages_tree_paths(m.nested_type@, path, m.nested_type@.len())
}

/// Paths, in depth-first order, of the first `n` messages of `ms`, which
/// are nested at `prefix`, and of what they hold.
pub open spec fn messages_tree_paths(ms: Seq<DescriptorProto>, prefix: Seq<usize>, n: nat) -> Seq<
    Seq<usize>,
>
    decreases ms, n,
{
    if n == 0 || n > ms.len() {
        Seq::empty()
    } else {
        messages_tree_paths(ms, prefix, (n - 1) as nat) + message_tree_paths(
            ms[n - 1],
            prefix.push((n - 1) as usize),
        )
    }
}

/// Paths of all the messages of a file, in depth-first order.
pub open spec fn file_message_paths(file: FileDescriptorProto) -> Seq<Seq<usize>> {
    messages_tree_paths(file.message_type@, Seq::empty(), file.message_type@.len())
}

/// The ranges `(first, count)` lie end to end: the first starts at `start`,
/// each next one where the one before it ends, and the last ends at `end`
/// (`start == end` when there are none).
pub open spec fn laid_end_to_end(ranges: Seq<(int, int)>, start: int, end: int) -> bool {
    if ranges.len() == 0 {
        start == end
    } else {
        &&& ranges[0].0 == start
        &&& forall|k: int|
            0 < k < ranges.len() ==> #[trigger] ranges[k].0 == ranges[k - 1].0 + ranges[k - 1].1
        &&& end == ranges.last().0 + ranges.last().1
    }
}

/// Two runs of ranges that lie end to end, one after the other, lie end to
/// end together.
pub proof fn lemma_laid_end_to_end_concat(
    a: Seq<(int, int)>,
    b: Seq<(int, int)>,
    start: int,
    mid: int,
    end: int,
)
    requires
        laid_end_to_end(a, start, mid),
        laid_end_to_end(b, mid, end),
    ensures
        laid_end_to_end(a + b, start, end),
{
    if a.len() == 0 {
        assert(a + b =~= b);
    } else if b.len() == 0 {
        assert(a + b =~= a);
    } else {
        let c = a + b;
        assert forall|k: int| 0 < k < c.len() implies #[trigger] c[k].0 == c[k - 1].0 + c[k
            - 1].1 by {
            if k < a.len() {
                assert(c[k] == a[k] && c[k - 1] == a[k - 1]);
            } else if k == a.len() {
                assert(c[k] == b[0] && c[k - 1] == a.last());
            } else {
                assert(c[k] == b[k - a.len()] && c[k - 1] == b[k - 1 - a.len()]);
            }
        }
        assert(c.last() == b.last());
    }
}

/// Where each message's nested enums are in the file's enum list.
pub open spec fn enum_ranges(ms: Seq<MessageIndex>) -> Seq<(int, int)> {
    ms.map_values(|m: MessageIndex| (m.first_enum_index as int, m.enum_count as int))
}

/// Where each message's oneofs are in the file's oneof list.
pub open spec fn oneof_ranges(ms: Seq<MessageIndex>) -> Seq<(int, int)> {
    ms.map_values(|m: MessageIndex| (m.first_oneof_index as int, m.oneof_count as int))
}

/// Where each message's fields are in the file's field list.
pub open spec fn field_ranges(ms: Seq<MessageIndex>) -> Seq<(int, int)> {
    ms.map_values(
        |m: MessageIndex| (m.message_index.first_field_index as int, m.message_index.field_count as int),
    )
}

/// Entries `base..` of `ms` are the messages at the paths of `tree`, in
/// that order, and their nested enums and oneofs lie end to end from
/// `e_start` to `e_end` and from `o_start` to `o_end`.
#[verifier::opaque]
pub open spec fn block_in_tree_order(
    ms: Seq<MessageIndex>,
    base: int,
    tree: Seq<Seq<usize>>,
    e_start: int,
    e_end: int,
    o_start: int,
    o_end: int,
) -> bool {
    &&& 0 <= base
    &&& ms.len() == base + tree.len()
    &&& forall|k: int| base <= k < ms.len() ==> (#[trigger] ms[k]).path.0@ == tree[k - base]
    &&& laid_end_to_end(enum_ranges(ms.subrange(base, ms.len() as int)), e_start, e_end)
    &&& laid_end_to_end(oneof_ranges(ms.subrange(base, ms.len() as int)), o_start, o_end)
}

/// The last entry alone, at path `p`, is a block.
proof fn lemma_block_single(
    ms: Seq<MessageIndex>,
    base: int,
    p: Seq<usize>,
    e_start: int,
    e_end: int,
    o_start: int,
    o_end: int,
)
    requires
        ms.len() == base + 1,
        0 <= base,
        ms[base].path.0@ == p,
        ms[base].first_enum_index == e_start,
        e_end == e_start + ms[base].enum_count,
        ms[base].first_oneof_index == o_start,
        o_end == o_start + ms[base].oneof_count,
    ensures
        block_in_tree_order(ms, base, seq![p], e_start, e_end, o_start, o_end),
{
    reveal(block_in_tree_order);
    assert(enum_ranges(ms.subrange(base, ms.len() as int))[0] == (ms[base].first_enum_index as int, ms[base].enum_count as int));
    assert(oneof_ranges(ms.subrange(base, ms.len() as int))[0] == (ms[base].first_oneof_index as int, ms[base].oneof_count as int));
}

/// The first entry of a non-empty block.
proof fn lemma_block_first(
    ms: Seq<MessageIndex>,
    base: int,
    tree: Seq<Seq<usize>>,
    e_start: int,
    e_end: int,
    o_start: int,
    o_end: int,
)
    requires
        block_in_tree_order(ms, base, tree, e_start, e_end, o_start, o_end),
        tree.len() > 0,
    ensures
        ms[base].path.0@ == tree[0],
        ms[base].first_enum_index == e_start,
        ms[base].first_oneof_index == o_start,
        ms.len() == base + tree.len(),
{
    reveal(block_in_tree_order);
    assert(enum_ranges(ms.subrange(base, ms.len() as int))[0] == (ms[base].first_enum_index as int, ms[base].enum_count as int));
    assert(oneof_ranges(ms.subrange(base, ms.len() as int))[0] == (ms[base].first_oneof_index as int, ms[base].oneof_count as int));
}

/// A block stays one when the entries keep their layout.
proof fn lemma_block_same_layout(
    m1: Seq<MessageIndex>,
    m2: Seq<MessageIndex>,
    base: int,
    tree: Seq<Seq<usize>>,
    e_start: int,
    e_end: int,
    o_start: int,
    o_end: int,
)
    requires
        block_in_tree_order(m1, base, tree, e_start, e_end, o_start, o_end),
        m1.len() == m2.len(),
        forall|k: int|
            base <= k < m1.len() ==> (#[trigger] m2[k]).path.0@ == m1[k].path.0@
                && m2[k].first_enum_index == m1[k].first_enum_index && m2[k].enum_count
                == m1[k].enum_count && m2[k].first_oneof_index == m1[k].first_oneof_index
                && m2[k].oneof_count == m1[k].oneof_count,
    ensures
        block_in_tree_order(m2, base, tree, e_start, e_end, o_start, o_end),
{
    reveal(block_in_tree_order);
    let n = m1.len() as int;
    assert forall|k: int| base <= k < n implies (#[trigger] m2[k]).path.0@ == tree[k - base] by {
        assert(m2[k].path.0@ == m1[k].path.0@);
    }
    assert(enum_ranges(m2.subrange(base, n)) =~= enum_ranges(m1.subrange(base, n))) by {
        assert forall|k: int| 0 <= k < n - base implies enum_ranges(m2.subrange(base, n))[k]
            == enum_ranges(m1.subrange(base, n))[k] by {
            assert(m2[base + k].path.0@ == m1[base + k].path.0@);
        }
    }
    assert(oneof_ranges(m2.subrange(base, n)) =~= oneof_ranges(m1.subrange(base, n))) by {
        assert forall|k: int| 0 <= k < n - base implies oneof_ranges(m2.subrange(base, n))[k]
            == oneof_ranges(m1.subrange(base, n))[k] by {
            assert(m2[base + k].path.0@ == m1[base + k].path.0@);
        }
    }
}

/// A block that follows the order of `before` grows by a block that
/// follows `added`: together they follow `before + added`.
proof fn lemma_tree_block_grow(
    m2: Seq<MessageIndex>,
    m3: Seq<MessageIndex>,
    base: int,
    before: Seq<Seq<usize>>,
    added: Seq<Seq<usize>>,
    e_start: int,
    e_mid: int,
    e_end: int,
    o_start: int,
    o_mid: int,
    o_end: int,
)
    requires
        block_in_tree_order(m2, base, before, e_start, e_mid, o_start, o_mid),
        block_in_tree_order(m3, m2.len() as int, added, e_mid, e_end, o_mid, o_end),
        forall|k: int| 0 <= k < m2.len() ==> same_layout(m2[k], #[trigger] m3[k]),
    ensures
        block_in_tree_order(m3, base, before + added, e_start, e_end, o_start, o_end),
{
    reveal(block_in_tree_order);
    let all = before + added;
    assert forall|k: int| base <= k < m3.len() implies (#[trigger] m3[k]).path.0@ == all[k
        - base] by {
        if k < m2.len() {
            assert(same_layout(m2[k], m3[k]));
        }
    }
    let mid = m2.len() as int;
    lemma_ranges_split(m2, m3, base);
    lemma_laid_end_to_end_concat(
        enum_ranges(m2.subrange(base, mid)),
        enum_ranges(m3.subrange(mid, m3.len() as int)),
        e_start,
        e_mid,
        e_end,
    );
    lemma_laid_end_to_end_concat(
        oneof_ranges(m2.subrange(base, mid)),
        oneof_ranges(m3.subrange(mid, m3.len() as int)),
        o_start,
        o_mid,
        o_end,
    );
}

/// The enum and oneof ranges of entries `base..` of `m3`, whose first
/// entries keep the layout of those of `m2`, are those of `m2` followed by
/// those of the entries added.
proof fn lemma_ranges_split(m2: Seq<MessageIndex>, m3: Seq<MessageIndex>, base: int)
    requires
        0 <= base <= m2.len() <= m3.len(),
        forall|k: int| 0 <= k < m2.len() ==> same_layout(m2[k], #[trigger] m3[k]),
    ensures
        enum_ranges(m3.subrange(base, m3.len() as int)) == enum_ranges(
            m2.subrange(base, m2.len() as int),
        ) + enum_ranges(m3.subrange(m2.len() as int, m3.len() as int)),
        oneof_ranges(m3.subrange(base, m3.len() as int)) == oneof_ranges(
            m2.subrange(base, m2.len() as int),
        ) + oneof_ranges(m3.subrange(m2.len() as int, m3.len() as int)),
{
    let mid = m2.len() as int;
    let n = m3.len() as int;
    let e = enum_ranges(m3.subrange(base, n));
    let e2 = enum_ranges(m2.subrange(base, mid)) + enum_ranges(m3.subrange(mid, n));
    assert forall|k: int| 0 <= k < n - base implies e[k] == e2[k] by {
        if base + k < mid {
            assert(same_layout(m2[base + k], m3[base + k]));
        }
    }
    assert(e =~= e2);
    let o = oneof_ranges(m3.subrange(base, n));
    let o2 = oneof_ranges(m2.subrange(base, mid)) + oneof_ranges(m3.subrange(mid, n));
    assert forall|k: int| 0 <= k < n - base implies o[k] == o2[k] by {
        if base + k < mid {
            assert(same_layout(m2[base + k], m3[base + k]));
        }
    }
    assert(o =~= o2);
}

/// No entries make an empty block.
proof fn lemma_block_empty(ms: Seq<MessageIndex>, start: int)
    requires
        ms.len() == 0,
    ensures
        block_in_tree_order(ms, 0, Seq::empty(), start, start, 0, 0),
{
    reveal(block_in_tree_order);
    assert(enum_ranges(ms.subrange(0, 0)).len() == 0);
    assert(oneof_ranges(ms.subrange(0, 0)).len() == 0);
}

/// A block that starts at the first entry covers the whole list: its
/// entries are at the paths of `tree`, in order, and their enums and oneofs
/// lie end to end.
proof fn lemma_block_whole(
    ms: Seq<MessageIndex>,
    tree: Seq<Seq<usize>>,
    e_start: int,
    e_end: int,
    o_start: int,
    o_end: int,
)
    requires
        block_in_tree_order(ms, 0, tree, e_start, e_end, o_start, o_end),
    ensures
        ms.len() == tree.len(),
        forall|k: int| 0 <= k < ms.len() ==> (#[trigger] ms[k]).path.0@ == tree[k],
        laid_end_to_end(enum_ranges(ms), e_start, e_end),
        laid_end_to_end(oneof_ranges(ms), o_start, o_end),
{
    reveal(block_in_tree_order);
    assert(ms.subrange(0, ms.len() as int) =~= ms);
}

/// The message at entry `k` of the depth-first order of a file.
pub open spec fn message_in_order(file: FileDescriptorProto, k: int) -> DescriptorProto {
    spec_message_at(file.message_type@, file_message_paths(file)[k]).unwrap()
}

/// Message `k`, in depth-first order, is the first whose fields conflict.
pub open spec fn is_first_conflicting_in_order(file: FileDescriptorProto, k: int) -> bool {
    &&& 0 <= k < file_message_paths(file).len()
    &&& !fields_unique(message_in_order(file, k).field@)
    &&& forall|j: int| 0 <= j < k ==> fields_unique(#[trigger] message_in_order(file, j).field@)
}

/// The first message of the list whose fields conflict is the first in
/// depth-first order, when the list follows that order.
proof fn lemma_first_conflict_in_order(
    file: FileDescriptorProto,
    m: Seq<MessageIndex>,
    name: Seq<char>,
)
    requires
        m.len() == file_message_paths(file).len(),
        forall|k: int| 0 <= k < m.len() ==> (#[trigger] m[k]).path.0@ == file_message_paths(file)[k],
        exists|k: int, i: int|
            is_first_conflicting_message(file, m, k) && is_first_conflict(
                indexed_proto(file, m[k]).field@,
                i,
            ) && name == indexed_proto(file, m[k]).field@[i].name@,
    ensures
        exists|k: int, i: int|
            #[trigger] is_first_conflicting_in_order(file, k) && #[trigger] is_first_conflict(
                message_in_order(file, k).field@,
                i,
            ) && name == message_in_order(file, k).field@[i].name@,
{
    let (k, i) = choose|k: int, i: int|
        is_first_conflicting_message(file, m, k) && is_first_conflict(
            indexed_proto(file, m[k]).field@,
            i,
        ) && name == indexed_proto(file, m[k]).field@[i].name@;
    assert(indexed_proto(file, m[k]) == message_in_order(file, k));
    assert forall|j: int| 0 <= j < k implies fields_unique(
        #[trigger] message_in_order(file, j).field@,
    ) by {
        assert(indexed_proto(file, m[j]) == message_in_order(file, j));
    }
    assert(is_first_conflicting_in_order(file, k));
}

/// Errors found while indexing a file.
pub enum ReflectError {
    /// Two fields of a message share a number, a name or a JSON name; holds
    /// the name of the second of them.
    NonUniqueFieldName(String),
}

/// Field index by number: each number maps to the last field that has it.
pub open spec fn fields_by_number(fields: Seq<FieldDescriptorProto>) -> Map<u32, usize>
    decreases fields.len(),
{
    if fields.len() == 0 {
        Map::empty()
    } else {
        fields_by_number(fields.drop_last()).insert(
            fields.last().number as u32,
            (fields.len() - 1) as usize,
        )
    }
}

/// Field index by name: each name maps to the last field that has it.
pub open spec fn fields_by_name(fields: Seq<FieldDescriptorProto>) -> Map<Seq<char>, usize>
    decreases fields.len(),
{
    if fields.len() == 0 {
        Map::empty()
    } else {
        fields_by_name(fields.drop_last()).insert(fields.last().name@, (fields.len() - 1) as usize)
    }
}

/// Field index by name and by JSON name.
pub open spec fn fields_by_name_or_json_name(fields: Seq<FieldDescriptorProto>) -> Map<
    Seq<char>,
    usize,
>
    decreases fields.len(),
{
    if fields.len() == 0 {
        Map::empty()
    } else {
        let f = fields.last();
        let i = (fields.len() - 1) as usize;
        let m = fields_by_name_or_json_name(fields.drop_last()).insert(f.name@, i);
        if f.json_name@ != f.name@ {
            m.insert(f.json_name@, i)
        } else {
            m
        }
    }
}

/// Field `i` repeats the number of an earlier field, or its name or JSON
/// name is the name or JSON name of an earlier field.
pub open spec fn field_conflicts(fields: Seq<FieldDescriptorProto>, i: int) -> bool {
    exists|j: int|
        0 <= j < i && {
            ||| fields[j].number as u32 == fields[i].number as u32
            ||| fields[j].name@ == fields[i].name@
            ||| fields[j].json_name@ == fields[i].name@
            ||| fields[j].name@ == fields[i].json_name@
            ||| fields[j].json_name@ == fields[i].json_name@
        }
}

/// No field of the list conflicts with an earlier one.
pub open spec fn fields_unique(fields: Seq<FieldDescriptorProto>) -> bool {
    forall|i: int| 0 <= i < fields.len() ==> !field_conflicts(fields, i)
}

/// Field `i` is the first that conflicts with an earlier one.
pub open spec fn is_first_conflict(fields: Seq<FieldDescriptorProto>, i: int) -> bool {
    &&& 0 <= i < fields.len()
    &&& field_conflicts(fields, i)
    &&& forall|j: int| 0 <= j < i ==> !field_conflicts(fields, j)
}

/// The fields index of a message describes the fields of `proto`, stored at
/// `first_field_index..` of `fields`.
pub open spec fn fields_index_ok(
    mfi: MessageFieldsIndex,
    proto: DescriptorProto,
    fields: Seq<FieldIndex>,
) -> bool {
    &&& mfi.field_count == proto.field@.len()
    &&& mfi.first_field_index + mfi.field_count <= fields.len()
    &&& forall|t: int|
        0 <= t < mfi.field_count ==> (#[trigger] fields[mfi.first_field_index + t]).json_name@
            == proto.field@[t].json_name@
    &&& mfi.field_index_by_number@ == fields_by_number(proto.field@)
    &&& mfi.field_index_by_name@ == fields_by_name(proto.field@)
    &&& mfi.field_index_by_name_or_json_name@ == fields_by_name_or_json_name(proto.field@)
    &&& mfi.extensions@.len() == proto.extension@.len()
    &&& forall|t: int|
        0 <= t < mfi.extensions@.len() ==> (#[trigger] mfi.extensions@[t]).json_name@
            == proto.extension@[t].json_name@
}

proof fn lemma_fields_by_number_dom(fields: Seq<FieldDescriptorProto>, k: u32)
    ensures
        fields_by_number(fields).contains_key(k) <==> exists|j: int|
            0 <= j < fields.len() && fields[j].number as u32 == k,
    decreases fields.len(),
{
    if fields.len() > 0 {
        let prev = fields.drop_last();
        lemma_fields_by_number_dom(prev, k);
        if exists|j: int| 0 <= j < fields.len() && fields[j].number as u32 == k {
            let j = choose|j: int| 0 <= j < fields.len() && fields[j].number as u32 == k;
            if j < fields.len() - 1 {
                assert(prev[j] == fields[j]);
            }
        }
        if exists|j: int| 0 <= j < prev.len() && prev[j].number as u32 == k {
            let j = choose|j: int| 0 <= j < prev.len() && prev[j].number as u32 == k;
            assert(fields[j] == prev[j]);
        }
    }
}

proof fn lemma_fields_by_name_dom(fields: Seq<FieldDescriptorProto>, k: Seq<char>)
    ensures
        fields_by_name(fields).contains_key(k) <==> exists|j: int|
            0 <= j < fields.len() && fields[j].name@ == k,
    decreases fields.len(),
{
    if fields.len() > 0 {
        let prev = fields.drop_last();
        lemma_fields_by_name_dom(prev, k);
        if exists|j: int| 0 <= j < fields.len() && fields[j].name@ == k {
            let j = choose|j: int| 0 <= j < fields.len() && fields[j].name@ == k;
            if j < fields.len() - 1 {
                assert(prev[j] == fields[j]);
            }
        }
        if exists|j: int| 0 <= j < prev.len() && prev[j].name@ == k {
            let j = choose|j: int| 0 <= j < prev.len() && prev[j].name@ == k;
            assert(fields[j] == prev[j]);
        }
    }
}

proof fn lemma_fields_by_name_or_json_name_dom(fields: Seq<FieldDescriptorProto>, k: Seq<char>)
    ensures
        fields_by_name_or_json_name(fields).contains_key(k) <==> exists|j: int|
            0 <= j < fields.len() && (fields[j].name@ == k || fields[j].json_name@ == k),
    decreases fields.len(),
{
    if fields.len() > 0 {
        let prev = fields.drop_last();
        lemma_fields_by_name_or_json_name_dom(prev, k);
        if exists|j: int|
            0 <= j < fields.len() && (fields[j].name@ == k || fields[j].json_name@ == k) {
            let j = choose|j: int|
                0 <= j < fields.len() && (fields[j].name@ == k || fields[j].json_name@ == k);
            if j < fields.len() - 1 {
                assert(prev[j] == fields[j]);
            }
        }
        if exists|j: int|
            0 <= j < prev.len() && (prev[j].name@ == k || prev[j].json_name@ == k) {
            let j = choose|j: int|
                0 <= j < prev.len() && (prev[j].name@ == k || prev[j].json_name@ == k);
            assert(fields[j] == prev[j]);
        }
    }
}

/// Message index by name relative to the package: each name maps to the
/// last message that has it.
pub open spec fn messages_by_name_to_package(messages: Seq<MessageIndex>) -> Map<Seq<char>, usize>
    decreases messages.len(),
{
    if messages.len() == 0 {
        Map::empty()
    } else {
        messages_by_name_to_package(messages.drop_last()).insert(
            messages.last().name_to_package@,
            (messages.len() - 1) as usize,
        )
    }
}

/// Enum index by name relative to the package: each name maps to the last
/// enum that has it.
pub open spec fn enums_by_name_to_package(enums: Seq<EnumIndex>) -> Map<Seq<char>, usize>
    decreases enums.len(),
{
    if enums.len() == 0 {
        Map::empty()
    } else {
        enums_by_name_to_package(enums.drop_last()).insert(
            enums.last().name_to_package@,
            (enums.len() - 1) as usize,
        )
    }
}

/// The message that entry `m` of a message list describes.
pub open spec fn indexed_proto(file: FileDescriptorProto, m: MessageIndex) -> DescriptorProto {
    spec_message_at(file.message_type@, m.path.0@).unwrap()
}

/// Message `k` is the first, in index order, whose fields conflict.
pub open spec fn is_first_conflicting_message(
    file: FileDescriptorProto,
    messages: Seq<MessageIndex>,
    k: int,
) -> bool {
    &&& 0 <= k < messages.len()
    &&& !fields_unique(indexed_proto(file, messages[k]).field@)
    &&& forall|j: int|
        0 <= j < k ==> fields_unique(#[trigger] indexed_proto(file, messages[j]).field@)
}

/// No message of the file has conflicting fields.
pub open spec fn file_fields_unique(file: FileDescriptorProto) -> bool {
    forall|path: Seq<usize>|
        #[trigger] spec_message_at(file.message_type@, path) is Some ==> fields_unique(
            spec_message_at(file.message_type@, path).unwrap().field@,
        )
}

/// Every message of the file has an entry in `messages`.
pub open spec fn messages_complete(file: FileDescriptorProto, messages: Seq<MessageIndex>) -> bool {
    forall|path: Seq<usize>|
        #[trigger] spec_message_at(file.message_type@, path) is Some ==> exists|k: int|
            0 <= k < messages.len() && messages[k].path.0@ == path
}

/// A message below the top level is a nested type of the message one step
/// up its path.
pub proof fn lemma_message_at_drop_last(messages: Seq<DescriptorProto>, path: Seq<usize>)
    requires
        path.len() > 1,
        spec_message_at(messages, path) is Some,
    ensures
        spec_message_at(messages, path.drop_last()) is Some,
        path.last() < spec_message_at(messages, path.drop_last()).unwrap().nested_type@.len(),
        path == path.drop_last().push(path.last()),
    decreases path.len(),
{
    assert(path =~= path.drop_last().push(path.last()));
    if path.len() > 2 {
        let rest = path.drop_first();
        assert(rest.drop_last() =~= path.drop_last().drop_first());
        lemma_message_at_drop_last(messages[path[0] as int].nested_type@, rest);
    }
}

/// `c` is the index of `file`: an entry for every message, in depth-first
/// order, each describing its message, nested messages, enums, oneofs and
/// fields; the top-level enums first, then each message's enums, oneofs and
/// fields laid end to end in message order; the name maps; and the
/// file-level extensions after the fields of all messages.
#[verifier::opaque]
pub open spec fn index_of_file(c: FileDescriptorCommon, file: FileDescriptorProto) -> bool {
    &&& forall|k: int|
        0 <= k < c.messages@.len() ==> message_index_ok(
            file,
            c.messages@,
            c.enums@,
            c.oneofs@,
            k,
        )
    &&& forall|k: int|
        0 <= k < c.messages@.len() ==> fields_index_ok(
            (#[trigger] c.messages@[k]).message_index,
            indexed_proto(file, c.messages@[k]),
            c.fields@,
        )
    &&& messages_complete(file, c.messages@)
    &&& paths_distinct(c.messages@, 0)
    &&& c.top_level_messages@.len() == file.message_type@.len()
    &&& forall|i: int|
        0 <= i < c.top_level_messages@.len() ==> #[trigger] c.top_level_messages@[i]
            < c.messages@.len() && c.messages@[c.top_level_messages@[i] as int].path.0@
            == seq![i as usize]
    &&& file.enum_type@.len() <= c.enums@.len()
    &&& forall|i: int|
        0 <= i < file.enum_type@.len() ==> enum_index_ok(
            file,
            #[trigger] c.enums@[i],
            Seq::empty(),
            i,
            file.enum_type@[i],
            file.enum_type@[i].name@,
            None,
        )
    &&& c.message_by_name_to_package@ == messages_by_name_to_package(c.messages@)
    &&& c.enums_by_name_to_package@ == enums_by_name_to_package(c.enums@)
    &&& c.messages@.len() == file_message_paths(file).len()
    &&& forall|k: int|
        0 <= k < c.messages@.len() ==> (#[trigger] c.messages@[k]).path.0@
            == file_message_paths(file)[k]
    &&& laid_end_to_end(
        enum_ranges(c.messages@),
        file.enum_type@.len() as int,
        c.enums@.len() as int,
    )
    &&& laid_end_to_end(oneof_ranges(c.messages@), 0, c.oneofs@.len() as int)
    &&& laid_end_to_end(
        field_ranges(c.messages@),
        0,
        c.first_extension_field_index as int,
    )
    &&& c.first_extension_field_index + file.extension@.len() == c.fields@.len()
    &&& forall|t: int|
        0 <= t < file.extension@.len() ==> (#[trigger] c.fields@[c.first_extension_field_index
            + t]).json_name@ == file.extension@[t].json_name@
}

/// Index of a file: all its messages, enums, oneofs and fields.
pub struct FileDescriptorCommon {
    /// Files this file depends on.
    pub dependencies: Vec<FileDescriptor>,
    /// All messages in this file.
    pub messages: Vec<MessageIndex>,
    /// Message index by name relative to the package.
    pub message_by_name_to_package: StrIndexMap,
    /// Indices of the top-level messages.
    pub top_level_messages: Vec<usize>,
    /// All enums in this file; top-level enums first.
    pub enums: Vec<EnumIndex>,
    /// Enum index by name relative to the package.
    pub enums_by_name_to_package: StrIndexMap,
    /// All oneofs in this file.
    pub oneofs: Vec<OneofIndex>,
    /// Index in `fields` of the first file-level extension.
    pub first_extension_field_index: usize,
    /// All fields followed by file-level extensions.
    pub fields: Vec<FieldIndex>,
}

impl FileDescriptorCommon {
    /// Add the message `message`, found at `path`, its enums and oneofs and,
    /// recursively, its nested messages to the lists. Returns the index of
    /// the message.
    fn index_message_and_inners(
        file: &FileDescriptorProto,
        message: &DescriptorProto,
        path: &MessagePath,
        parent: Option<usize>,
        parent_name_to_package: &str,
        messages: &mut Vec<MessageIndex>,
        enums: &mut Vec<EnumIndex>,
        oneofs: &mut Vec<OneofIndex>,
    ) -> (r: usize)
        requires
            spec_message_at(file.message_type@, path.0@) == Some(*message),
            path.0@.len() == 1 ==> parent is None && parent_name_to_package@ == Seq::<char>::empty(),
            path.0@.len() > 1 ==> parent is Some && parent.unwrap() < old(messages)@.len()
                && old(messages)@[parent.unwrap() as int].path.0@ == path.0@.drop_last()
                && parent_name_to_package@ == spec_name_to_package(
                file.message_type@,
                path.0@.drop_last(),
            ),
        ensures
            r == old(messages)@.len(),
            r < final(messages)@.len(),
            final(messages)@[r as int].path.0@ == path.0@,
            final(messages)@[r as int].enclosing_message == parent,
            same_paths(old(messages)@, final(messages)@),
            forall|k: int|
                0 <= k < old(messages)@.len() ==> same_layout(
                    old(messages)@[k],
                    #[trigger] final(messages)@[k],
                ),
            is_prefix(old(enums)@, final(enums)@),
            is_prefix(old(oneofs)@, final(oneofs)@),
            forall|k: int|
                r <= k < final(messages)@.len() ==> message_index_ok(
                    *file,
                    final(messages)@,
                    final(enums)@,
                    final(oneofs)@,
                    k,
                ),
            forall|k: int|
                r <= k < final(messages)@.len() ==> path_has_prefix(
                    path.0@,
                    (#[trigger] final(messages)@[k]).path.0@,
                ),
            forall|k: int|
                r < k < final(messages)@.len() ==> (#[trigger] final(messages)@[k]).path.0@.len()
                    > path.0@.len(),
            paths_distinct(final(messages)@, r as int),
            block_in_tree_order(
                final(messages)@,
                r as int,
                message_tree_paths(*message, path.0@),
                old(enums)@.len() as int,
                final(enums)@.len() as int,
                old(oneofs)@.len() as int,
                final(oneofs)@.len() as int,
            ),
            final(messages)@[r as int].first_enum_index == old(enums)@.len(),
            final(messages)@[r as int].first_oneof_index == old(oneofs)@.len(),
            forall|k: int|
                0 <= k < old(messages)@.len() ==> (#[trigger] final(messages)@[k]).message_index
                    == old(messages)@[k].message_index,
            forall|a: int, b: int|
                0 <= a < b < final(messages)@[r as int].nested_messages@.len() ==> (
                #[trigger] final(messages)@[r as int].nested_messages@[a]) < (
                #[trigger] final(messages)@[r as int].nested_messages@[b]),
        decreases message,
    {
        let ghost fm = file.message_type@;
        let ghost p = path.0@;
        let name_to_package = concat_paths(parent_name_to_package, message.name.as_str());
        assert(name_to_package@ == spec_name_to_package(fm, p));

        let message_index = messages.len();
        let ghost m0 = messages@;
        let ghost e0 = enums@;
        let ghost o0 = oneofs@;
        messages.push(
            MessageIndex {
                path: MessagePath(path.0.clone()),
                name: message.name.clone(),
                name_to_package: String::new(),
                full_name: String::new(),
                enclosing_message: parent,
                nested_messages: Vec::with_capacity(message.nested_type.len()),
                map_entry: message.map_entry,
                first_enum_index: enums.len(),
                enum_count: message.enum_type.len(),
                first_oneof_index: oneofs.len(),
                oneof_count: message.oneof_decl.len(),
                message_index: MessageFieldsIndex::default(),
            },
        );
        assert(messages@[message_index as int].path.0@ == p);

        let mut i: usize = 0;
        while i < message.enum_type.len()
            invariant
                i <= message.enum_type@.len(),
                p == path.0@,
                is_prefix(e0, enums@),
                enums@.len() == e0.len() + i,
                forall|j: int|
                    0 <= j < i ==> enum_index_ok(
                        *file,
                        #[trigger] enums@[e0.len() + j],
                        p,
                        j,
                        message.enum_type@[j],
                        spec_concat_paths(name_to_package@, message.enum_type@[j].name@),
                        Some(message_index),
                    ),
            decreases message.enum_type@.len() - i,
        {
            let e = &message.enum_type[i];
            let enum_path = EnumPath { message_path: MessagePath(path.0.clone()), enum_index: i };
            let ghost before = enums@;
            let ntp = concat_paths(name_to_package.as_str(), e.name.as_str());
            assert(enum_path.message_path.0@ =~= p);
            let ei = EnumIndex::new(enum_path, ntp, Some(message_index), e, file);
            enums.push(ei);
            assert forall|j: int| 0 <= j < i implies #[trigger] enums@[e0.len() + j] == before[e0.len() + j] by {}
            i = i + 1;
        }

        let mut i: usize = 0;
        while i < message.oneof_decl.len()
            invariant
                i <= message.oneof_decl@.len(),
                is_prefix(o0, oneofs@),
                oneofs@.len() == o0.len() + i,
                forall|j: int|
                    0 <= j < i ==> oneof_index_ok(
                        #[trigger] oneofs@[o0.len() + j],
                        *message,
                        message_index as int,
                        j,
                    ),
            decreases message.oneof_decl@.len() - i,
        {
            let mut fields: Vec<usize> = Vec::new();
            let mut f: usize = 0;
            while f < message.field.len()
                invariant
                    f <= message.field@.len(),
                    fields@ == oneof_field_indices(message.field@, f as nat, i as i32),
                decreases message.field@.len() - f,
            {
                if message.field[f].oneof_index == Some(i as i32) {
                    fields.push(f);
                }
                f = f + 1;
            }
            proof {
                lemma_oneof_field_indices_bound(message.field@, f as nat, i as i32);
            }
            let synthetic = fields.len() == 1 && message.field[fields[0]].proto3_optional;
            oneofs.push(
                OneofIndex {
                    containing_message: message_index,
                    index_in_containing_message: i,
                    synthetic,
                    fields,
                },
            );
            i = i + 1;
        }
        let ghost e1 = enums@;
        let ghost o1 = oneofs@;
        let ghost m1 = messages@;

        let mut nested_messages: Vec<usize> = Vec::with_capacity(message.nested_type.len());
        let mut i: usize = 0;
        let ghost mut tree = seq![p];
        proof {
            assert(tree =~= seq![p] + messages_tree_paths(message.nested_type@, p, 0));
            lemma_block_single(m1, message_index as int, p, e0.len() as int, e1.len() as int, o0.len() as int, o1.len() as int);
        }
        while i < message.nested_type.len()
            invariant
                i <= message.nested_type@.len(),
                spec_message_at(fm, p) == Some(*message),
                fm == file.message_type@,
                p == path.0@,
                name_to_package@ == spec_name_to_package(fm, p),
                message_index == m1.len() - 1,
                m1[message_index as int].path.0@ == p,
                nested_messages@.len() == i,
                same_paths(m1, messages@),
                forall|k: int| 0 <= k < m1.len() ==> same_layout(m1[k], #[trigger] messages@[k]),
                is_prefix(e1, enums@),
                is_prefix(o1, oneofs@),
                forall|k: int|
                    message_index < k < messages@.len() ==> message_index_ok(
                        *file,
                        messages@,
                        enums@,
                        oneofs@,
                        k,
                    ),
                forall|k: int|
                    message_index < k < messages@.len() ==> path_has_prefix(
                        p,
                        (#[trigger] messages@[k]).path.0@,
                    ) && messages@[k].path.0@.len() > p.len() && messages@[k].path.0@[p.len() as int]
                        < i,
                paths_distinct(messages@, message_index + 1),
                forall|j: int|
                    0 <= j < i ==> message_index < #[trigger] nested_messages@[j] < messages@.len()
                        && messages@[nested_messages@[j] as int].path.0@ == p.push(j as usize)
                        && messages@[nested_messages@[j] as int].enclosing_message == Some(
                        message_index,
                    ),
                forall|a: int, b: int|
                    0 <= a < b < i ==> (#[trigger] nested_messages@[a]) < (
                    #[trigger] nested_messages@[b]),
                tree == seq![p] + messages_tree_paths(message.nested_type@, p, i as nat),
                block_in_tree_order(
                    messages@,
                    message_index as int,
                    tree,
                    e0.len() as int,
                    enums@.len() as int,
                    o0.len() as int,
                    oneofs@.len() as int,
                ),
                m0.len() == message_index,
                forall|k: int|
                    0 <= k < m0.len() ==> (#[trigger] messages@[k]).message_index
                        == m0[k].message_index,
            decreases message.nested_type@.len() - i,
        {
            let nested = &message.nested_type[i];
            let mut nested_path = MessagePath(path.0.clone());
            nested_path.0.push(i);
            proof {
                lemma_message_at_push(fm, p, *message, i);
                assert(nested_path.0@ =~= p.push(i));
                assert(p.push(i).drop_last() =~= p);
                assert(decreases_to!(message => message.nested_type));
                assert(decreases_to!(message.nested_type => message.nested_type@));
                assert(decreases_to!(message.nested_type@ => message.nested_type@[i as int]));
            }
            let ghost m2 = messages@;
            let ghost e2 = enums@;
            let ghost o2 = oneofs@;
            let nested_index = Self::index_message_and_inners(
                file,
                nested,
                &nested_path,
                Some(message_index),
                name_to_package.as_str(),
                messages,
                enums,
                oneofs,
            );
            proof {
                lemma_message_index_ok_frame_range(
                    *file,
                    m2,
                    e2,
                    o2,
                    messages@,
                    enums@,
                    oneofs@,
                    message_index + 1,
                );
                assert forall|k: int| 0 <= k < m1.len() implies same_layout(
                    m1[k],
                    #[trigger] messages@[k],
                ) by {
                    assert(same_layout(m2[k], messages@[k]));
                }
                assert forall|k: int| message_index < k < messages@.len() implies path_has_prefix(
                    p,
                    (#[trigger] messages@[k]).path.0@,
                ) && messages@[k].path.0@.len() > p.len() && messages@[k].path.0@[p.len() as int]
                    < i + 1 by {
                    if k >= m2.len() {
                        lemma_path_prefix_push(p, i, messages@[k].path.0@);
                    } else {
                        assert(messages@[k].path.0@ == m2[k].path.0@);
                    }
                }
                assert forall|k1: int, k2: int|
                    message_index + 1 <= k1 < k2 < messages@.len() implies (
                #[trigger] messages@[k1]).path.0@ != (#[trigger] messages@[k2]).path.0@ by {
                    if k2 >= m2.len() {
                        lemma_path_prefix_push(p, i, messages@[k2].path.0@);
                        if k1 < m2.len() {
                            assert(messages@[k1].path.0@ == m2[k1].path.0@);
                        }
                    } else {
                        assert(messages@[k1].path.0@ == m2[k1].path.0@);
                        assert(messages@[k2].path.0@ == m2[k2].path.0@);
                        assert(m2[k1].path.0@ != m2[k2].path.0@);
                    }
                }
            }
            proof {
                let sub = message_tree_paths(message.nested_type@[i as int], p.push(i));
                let before = tree;
                lemma_tree_block_grow(
                    m2,
                    messages@,
                    message_index as int,
                    before,
                    sub,
                    e0.len() as int,
                    e2.len() as int,
                    enums@.len() as int,
                    o0.len() as int,
                    o2.len() as int,
                    oneofs@.len() as int,
                );
                assert(messages_tree_paths(message.nested_type@, p, (i + 1) as nat)
                    == messages_tree_paths(message.nested_type@, p, i as nat) + sub);
                assert(seq![p] + messages_tree_paths(message.nested_type@, p, (i + 1) as nat)
                    =~= before + sub);
                tree = before + sub;
            }
            let ghost nm = nested_messages@;
            nested_messages.push(nested_index);
            proof {
                assert forall|a: int, b: int| 0 <= a < b < i + 1 implies (
                #[trigger] nested_messages@[a]) < (#[trigger] nested_messages@[b]) by {
                    assert(nested_messages@[a] == nm[a]);
                    if b < i {
                        assert(nested_messages@[b] == nm[b]);
                    }
                }
            }
            i = i + 1;
        }

        let ghost m3 = messages@;
        let full_name = concat_paths(file.package.as_str(), name_to_package.as_str());
        messages[message_index].nested_messages = nested_messages;
        messages[message_index].full_name = full_name;
        messages[message_index].name_to_package = name_to_package;

        proof {
            let mi = messages@[message_index as int];
            assert forall|k: int| 0 <= k < m3.len() && k != message_index implies messages@[k]
                == m3[k] by {}
            assert(tree == message_tree_paths(*message, p));
            lemma_block_same_layout(
                m3,
                messages@,
                message_index as int,
                tree,
                e0.len() as int,
                enums@.len() as int,
                o0.len() as int,
                oneofs@.len() as int,
            );
            lemma_block_first(
                messages@,
                message_index as int,
                tree,
                e0.len() as int,
                enums@.len() as int,
                o0.len() as int,
                oneofs@.len() as int,
            );
            assert forall|k: int| 0 <= k < m0.len() implies (#[trigger] messages@[k]).message_index
                == m0[k].message_index by {
                assert(messages@[k] == m3[k]);
            }
            assert(same_paths(m3, messages@));
            lemma_message_index_ok_frame_range(
                *file,
                m3,
                enums@,
                oneofs@,
                messages@,
                enums@,
                oneofs@,
                message_index + 1,
            );
            assert forall|j: int| 0 <= j < mi.enum_count implies enum_index_ok(
                *file,
                #[trigger] enums@[mi.first_enum_index + j],
                p,
                j,
                message.enum_type@[j],
                spec_concat_paths(mi.name_to_package@, message.enum_type@[j].name@),
                Some(message_index),
            ) by {
                assert(enums@[e0.len() + j] == e1[e0.len() + j]);
            }
            assert forall|j: int| 0 <= j < mi.oneof_count implies oneof_index_ok(
                #[trigger] oneofs@[mi.first_oneof_index + j],
                *message,
                message_index as int,
                j,
            ) by {
                assert(oneofs@[o0.len() + j] == o1[o0.len() + j]);
            }
            assert(message_index_ok(*file, messages@, enums@, oneofs@, message_index as int));
            assert forall|k: int| message_index <= k < messages@.len() implies path_has_prefix(
                p,
                (#[trigger] messages@[k]).path.0@,
            ) by {
                if k == message_index {
                    assert(p.take(p.len() as int) =~= p);
                } else {
                    assert(messages@[k].path.0@ == m3[k].path.0@);
                }
            }
            assert forall|k: int| message_index < k < messages@.len() implies (
            #[trigger] messages@[k]).path.0@.len() > p.len() by {
                assert(messages@[k].path.0@ == m3[k].path.0@);
            }
            assert forall|k1: int, k2: int|
                message_index <= k1 < k2 < messages@.len() implies (
            #[trigger] messages@[k1]).path.0@ != (#[trigger] messages@[k2]).path.0@ by {
                assert(messages@[k2].path.0@ == m3[k2].path.0@);
                if k1 > message_index {
                    assert(messages@[k1].path.0@ == m3[k1].path.0@);
                    assert(m3[k1].path.0@ != m3[k2].path.0@);
                }
            }
            assert forall|k: int| 0 <= k < m0.len() implies same_layout(
                m0[k],
                #[trigger] messages@[k],
            ) by {
                assert(same_layout(m1[k], messages@[k]));
            }
        }
        message_index
    }

    /// Index the fields of message number `message_index`, appending them to
    /// `fields`. Fails on the first field whose number, name or JSON name
    /// was already taken by an earlier field.
    fn index_message(
        message_index: usize,
        proto: &DescriptorProto,
        fields: &mut Vec<FieldIndex>,
    ) -> (r: Result<MessageFieldsIndex, ReflectError>)
        ensures
            final(fields)@.len() == old(fields)@.len() + proto.field@.len(),
            is_prefix(old(fields)@, final(fields)@),
            forall|t: int|
                0 <= t < proto.field@.len() ==> (#[trigger] final(fields)@[old(fields)@.len()
                    + t]).json_name@ == proto.field@[t].json_name@,
            r is Ok <==> fields_unique(proto.field@),
            r matches Ok(mfi) ==> mfi.first_field_index == old(fields)@.len() && fields_index_ok(
                mfi,
                *proto,
                final(fields)@,
            ),
            r matches Err(ReflectError::NonUniqueFieldName(name)) ==> exists|i: int|
                is_first_conflict(proto.field@, i) && name@ == proto.field@[i].name@,
    {
        let mut index_by_name = StrIndexMap::new();
        let mut index_by_name_or_json_name = StrIndexMap::new();
        let mut index_by_number: HashMap<u32, usize> = HashMap::new();

        let first_field_index = fields.len();
        let ghost f0 = fields@;

        let mut i: usize = 0;
        while i < proto.field.len()
            invariant
                i <= proto.field@.len(),
                fields@.len() == f0.len() + i,
                first_field_index == f0.len(),
                is_prefix(f0, fields@),
                forall|t: int|
                    0 <= t < i ==> (#[trigger] fields@[f0.len() + t]).json_name@
                        == proto.field@[t].json_name@,
            decreases proto.field@.len() - i,
        {
            let fi = FieldIndex::index(Some(message_index), &proto.field[i]);
            fields.push(fi);
            i = i + 1;
        }

        let field_count = proto.field.len();
        let ghost pf = proto.field@;
        assert(f0 == old(fields)@);

        let mut i: usize = 0;
        while i < proto.field.len()
            invariant
                i <= pf.len(),
                pf == proto.field@,
                fields@.len() == f0.len() + pf.len(),
                f0 == old(fields)@,
                is_prefix(f0, fields@),
                forall|t: int|
                    0 <= t < pf.len() ==> (#[trigger] fields@[f0.len() + t]).json_name@
                        == pf[t].json_name@,
                index_by_number@ == fields_by_number(pf.take(i as int)),
                index_by_name@ == fields_by_name(pf.take(i as int)),
                index_by_name_or_json_name@ == fields_by_name_or_json_name(pf.take(i as int)),
                forall|j: int| 0 <= j < i ==> !field_conflicts(pf, j),
            decreases pf.len() - i,
        {
            let f = &proto.field[i];
            let ghost prefix = pf.take(i as int);
            let ghost next = pf.take(i + 1);
            proof {
                assert(next.drop_last() =~= prefix);
                assert forall|j: int| 0 <= j < i implies #[trigger] prefix[j] == pf[j] by {}
                lemma_fields_by_number_dom(prefix, f.number as u32);
                lemma_fields_by_name_dom(prefix, f.name@);
                lemma_fields_by_name_or_json_name_dom(prefix, f.name@);
                lemma_fields_by_name_or_json_name_dom(prefix, f.json_name@);
            }

            if index_by_number.insert(f.number as u32, i).is_some() {
                proof {
                    assert(is_first_conflict(pf, i as int));
                }
                return Err(ReflectError::NonUniqueFieldName(f.name.clone()));
            }
            if index_by_name.insert(f.name.clone(), i).is_some() {
                proof {
                    assert(is_first_conflict(pf, i as int));
                }
                return Err(ReflectError::NonUniqueFieldName(f.name.clone()));
            }
            if index_by_name_or_json_name.insert(f.name.clone(), i).is_some() {
                proof {
                    assert(is_first_conflict(pf, i as int));
                }
                return Err(ReflectError::NonUniqueFieldName(f.name.clone()));
            }
            if f.json_name != f.name {
                if index_by_name_or_json_name.insert(f.json_name.clone(), i).is_some() {
                    proof {
                        assert(is_first_conflict(pf, i as int));
                    }
                    return Err(ReflectError::NonUniqueFieldName(f.name.clone()));
                }
            }
            proof {
                assert forall|j: int| 0 <= j < i implies !({
                    ||| pf[j].number as u32 == pf[i as int].number as u32
                    ||| pf[j].name@ == pf[i as int].name@
                    ||| pf[j].json_name@ == pf[i as int].name@
                    ||| pf[j].name@ == pf[i as int].json_name@
                    ||| pf[j].json_name@ == pf[i as int].json_name@
                }) by {
                    assert(prefix[j] == pf[j]);
                }
                assert(!field_conflicts(pf, i as int));
            }
            i = i + 1;
        }
        assert(pf.take(i as int) =~= pf);

        let mut extensions: Vec<FieldIndex> = Vec::new();
        let mut e: usize = 0;
        while e < proto.extension.len()
            invariant
                e <= proto.extension@.len(),
                extensions@.len() == e,
                forall|t: int|
                    0 <= t < e ==> (#[trigger] extensions@[t]).json_name@
                        == proto.extension@[t].json_name@,
            decreases proto.extension@.len() - e,
        {
            extensions.push(FieldIndex::index(Some(message_index), &proto.extension[e]));
            e = e + 1;
        }

        Ok(
            MessageFieldsIndex {
                first_field_index,
                field_count,
                field_index_by_name: index_by_name,
                field_index_by_name_or_json_name: index_by_name_or_json_name,
                field_index_by_number: index_by_number,
                extensions,
            },
        )
    }

    /// Message index by name relative to the package.
    fn build_message_by_name_to_package(messages: &[MessageIndex]) -> (r: StrIndexMap)
        ensures
            r@ == messages_by_name_to_package(messages@),
    {
        let mut r = StrIndexMap::new();
        let mut i: usize = 0;
        while i < messages.len()
            invariant
                i <= messages@.len(),
                r@ == messages_by_name_to_package(messages@.take(i as int)),
            decreases messages@.len() - i,
        {
            r.insert(messages[i].name_to_package.clone(), i);
            assert(messages@.take(i + 1).drop_last() =~= messages@.take(i as int));
            i = i + 1;
        }
        assert(messages@.take(i as int) =~= messages@);
        r
    }

    /// Enum index by name relative to the package.
    fn build_enum_by_name_to_package(enums: &[EnumIndex]) -> (r: StrIndexMap)
        ensures
            r@ == enums_by_name_to_package(enums@),
    {
        let mut r = StrIndexMap::new();
        let mut i: usize = 0;
        while i < enums.len()
            invariant
                i <= enums@.len(),
                r@ == enums_by_name_to_package(enums@.take(i as int)),
            decreases enums@.len() - i,
        {
            r.insert(enums[i].name_to_package.clone(), i);
            assert(enums@.take(i + 1).drop_last() =~= enums@.take(i as int));
            i = i + 1;
        }
        assert(enums@.take(i as int) =~= enums@);
        r
    }

    /// Index the fields of every message, in message order. Fails on the
    /// first message whose fields conflict.
    #[verifier::spinoff_prover]
    fn build_message_index(
        file: &FileDescriptorProto,
        messages: &mut Vec<MessageIndex>,
        fields: &mut Vec<FieldIndex>,
    ) -> (r: Result<(), ReflectError>)
        requires
            forall|k: int|
                0 <= k < old(messages)@.len() ==> spec_message_at(
                    file.message_type@,
                    (#[trigger] old(messages)@[k]).path.0@,
                ) is Some,
        ensures
            final(messages)@.len() == old(messages)@.len(),
            forall|k: int|
                0 <= k < old(messages)@.len() ==> same_layout(
                    old(messages)@[k],
                    #[trigger] final(messages)@[k],
                ),
            r is Ok <==> forall|k: int|
                0 <= k < old(messages)@.len() ==> fields_unique(
                    #[trigger] indexed_proto(*file, old(messages)@[k]).field@,
                ),
            r is Ok ==> forall|k: int|
                0 <= k < old(messages)@.len() ==> fields_index_ok(
                    (#[trigger] final(messages)@[k]).message_index,
                    indexed_proto(*file, old(messages)@[k]),
                    final(fields)@,
                ),
            r is Ok ==> is_prefix(old(fields)@, final(fields)@),
            r is Ok ==> laid_end_to_end(
                field_ranges(final(messages)@),
                old(fields)@.len() as int,
                final(fields)@.len() as int,
            ),
            r matches Err(ReflectError::NonUniqueFieldName(name)) ==> exists|k: int, i: int|
                is_first_conflicting_message(*file, old(messages)@, k) && is_first_conflict(
                    indexed_proto(*file, old(messages)@[k]).field@,
                    i,
                ) && name@ == indexed_proto(*file, old(messages)@[k]).field@[i].name@,
    {
        let ghost m0 = messages@;
        let ghost f0 = fields@;
        let mut i: usize = 0;
        while i < messages.len()
            invariant
                i <= messages@.len(),
                messages@.len() == m0.len(),
                m0 == old(messages)@,
                f0 == old(fields)@,
                is_prefix(f0, fields@),
                forall|k: int|
                    0 <= k < m0.len() ==> spec_message_at(
                        file.message_type@,
                        (#[trigger] m0[k]).path.0@,
                    ) is Some,
                forall|k: int| 0 <= k < m0.len() ==> same_layout(m0[k], #[trigger] messages@[k]),
                forall|k: int|
                    0 <= k < i ==> fields_unique(#[trigger] indexed_proto(*file, m0[k]).field@),
                forall|k: int|
                    0 <= k < i ==> fields_index_ok(
                        (#[trigger] messages@[k]).message_index,
                        indexed_proto(*file, m0[k]),
                        fields@,
                    ),
                laid_end_to_end(
                    field_ranges(messages@.take(i as int)),
                    f0.len() as int,
                    fields@.len() as int,
                ),
            decreases m0.len() - i,
        {
            let message_proto = messages[i].path.eval(file).unwrap();
            assert(message_proto == indexed_proto(*file, m0[i as int]));
            let ghost fb = fields@;
            let message_index = match Self::index_message(i, message_proto, fields) {
                Ok(mi) => mi,
                Err(e) => {
                    proof {
                        assert(is_first_conflicting_message(*file, m0, i as int));
                    }
                    return Err(e);
                },
            };
            proof {
                assert forall|k: int| 0 <= k < i implies fields_index_ok(
                    (#[trigger] messages@[k]).message_index,
                    indexed_proto(*file, m0[k]),
                    fields@,
                ) by {
                    let mfi = messages@[k].message_index;
                    assert forall|t: int| 0 <= t < mfi.field_count implies (
                    #[trigger] fields@[mfi.first_field_index + t]).json_name@ == indexed_proto(
                        *file,
                        m0[k],
                    ).field@[t].json_name@ by {
                        assert(fields@[mfi.first_field_index + t] == fb[mfi.first_field_index
                            + t]);
                    }
                }
            }
            let ghost mb = messages@;
            messages[i].message_index = message_index;
            proof {
                let before = field_ranges(mb.take(i as int));
                let one = seq![
                    (fb.len() as int, message_proto.field@.len() as int),
                ];
                assert(field_ranges(messages@.take(i + 1)) =~= before + one) by {
                    assert forall|k: int| 0 <= k < i implies field_ranges(messages@.take(i + 1))[k]
                        == before[k] by {
                        assert(messages@[k] == mb[k]);
                    }
                }
                lemma_laid_end_to_end_concat(
                    before,
                    one,
                    f0.len() as int,
                    fb.len() as int,
                    fields@.len() as int,
                );
            }
            i = i + 1;
        }
        assert(messages@.take(i as int) =~= messages@);
        Ok(())
    }

    /// Index the top-level enums, then every message with its nested
    /// messages, enums and oneofs, in depth-first order.
    fn index_messages_and_enums(
        file: &FileDescriptorProto,
        messages: &mut Vec<MessageIndex>,
        enums: &mut Vec<EnumIndex>,
        oneofs: &mut Vec<OneofIndex>,
        top_level_messages: &mut Vec<usize>,
    )
        requires
            old(messages)@.len() == 0,
            old(enums)@.len() == 0,
            old(oneofs)@.len() == 0,
            old(top_level_messages)@.len() == 0,
        ensures
            forall|k: int|
                0 <= k < final(messages)@.len() ==> message_index_ok(
                    *file,
                    final(messages)@,
                    final(enums)@,
                    final(oneofs)@,
                    k,
                ),
            forall|k: int|
                0 <= k < final(messages)@.len() ==> spec_message_at(
                    file.message_type@,
                    (#[trigger] final(messages)@[k]).path.0@,
                ) is Some,
            messages_complete(*file, final(messages)@),
            paths_distinct(final(messages)@, 0),
            final(top_level_messages)@.len() == file.message_type@.len(),
            forall|i: int|
                0 <= i < final(top_level_messages)@.len() ==> #[trigger] final(top_level_messages)@[i]
                    < final(messages)@.len() && final(messages)@[final(top_level_messages)@[i] as int].path.0@
                    == seq![i as usize],
            file.enum_type@.len() <= final(enums)@.len(),
            forall|i: int|
                0 <= i < file.enum_type@.len() ==> enum_index_ok(
                    *file,
                    #[trigger] final(enums)@[i],
                    Seq::empty(),
                    i,
                    file.enum_type@[i],
                    file.enum_type@[i].name@,
                    None,
                ),
            block_in_tree_order(
                final(messages)@,
                0,
                file_message_paths(*file),
                file.enum_type@.len() as int,
                final(enums)@.len() as int,
                0,
                final(oneofs)@.len() as int,
            ),
    {
        // Top-level enums start with zero
        let mut i: usize = 0;
        while i < file.enum_type.len()
            invariant
                i <= file.enum_type@.len(),
                enums@.len() == i,
                forall|j: int|
                    0 <= j < i ==> enum_index_ok(
                        *file,
                        #[trigger] enums@[j],
                        Seq::empty(),
                        j,
                        file.enum_type@[j],
                        file.enum_type@[j].name@,
                        None,
                    ),
            decreases file.enum_type@.len() - i,
        {
            let e = &file.enum_type[i];
            let enum_path = EnumPath { message_path: MessagePath(Vec::new()), enum_index: i };
            assert(enum_path.message_path.0@ =~= Seq::<usize>::empty());
            let ei = EnumIndex::new(enum_path, e.name.clone(), None, e, file);
            let ghost before = enums@;
            enums.push(ei);
            assert forall|j: int| 0 <= j < i implies #[trigger] enums@[j] == before[j] by {}
            i = i + 1;
        }
        let ghost e_top = enums@;
        proof {
            lemma_block_empty(messages@, e_top.len() as int);
        }

        let mut i: usize = 0;
        while i < file.message_type.len()
            invariant
                i <= file.message_type@.len(),
                is_prefix(e_top, enums@),
                e_top.len() == file.enum_type@.len(),
                forall|k: int| 0 <= k < messages@.len() ==> message_index_ok(
                    *file,
                    messages@,
                    enums@,
                    oneofs@,
                    k,
                ),
                top_level_messages@.len() == i,
                forall|t: int|
                    0 <= t < i ==> #[trigger] top_level_messages@[t] < messages@.len()
                        && messages@[top_level_messages@[t] as int].path.0@ == seq![t as usize],
                forall|k: int|
                    0 <= k < messages@.len() ==> (#[trigger] messages@[k]).path.0@.len() >= 1
                        && messages@[k].path.0@[0] < i,
                paths_distinct(messages@, 0),
                oneofs@.len() >= 0,
                block_in_tree_order(
                    messages@,
                    0,
                    messages_tree_paths(file.message_type@, Seq::empty(), i as nat),
                    e_top.len() as int,
                    enums@.len() as int,
                    0,
                    oneofs@.len() as int,
                ),
            decreases file.message_type@.len() - i,
        {
            let path = MessagePath(vec![i]);
            proof {
                assert(path.0@ =~= seq![i]);
                reveal_strlit("");
                assert(""@ =~= Seq::<char>::empty());
            }
            let ghost m1 = messages@;
            let ghost e1 = enums@;
            let ghost o1 = oneofs@;
            let message_index = Self::index_message_and_inners(
                file,
                &file.message_type[i],
                &path,
                None,
                "",
                messages,
                enums,
                oneofs,
            );
            proof {
                lemma_message_index_ok_frame_range(
                    *file,
                    m1,
                    e1,
                    o1,
                    messages@,
                    enums@,
                    oneofs@,
                    0,
                );
            }
            proof {
                assert forall|k: int| 0 <= k < messages@.len() implies (
                #[trigger] messages@[k]).path.0@.len() >= 1 && messages@[k].path.0@[0] < i + 1 by {
                    if k >= m1.len() {
                        lemma_path_prefix_push(Seq::<usize>::empty(), i, messages@[k].path.0@);
                        assert(Seq::<usize>::empty().push(i) =~= seq![i]);
                    } else {
                        assert(messages@[k].path.0@ == m1[k].path.0@);
                    }
                }
                assert forall|k1: int, k2: int| 0 <= k1 < k2 < messages@.len() implies (
                #[trigger] messages@[k1]).path.0@ != (#[trigger] messages@[k2]).path.0@ by {
                    if k2 >= m1.len() {
                        assert(Seq::<usize>::empty().push(i) =~= seq![i]);
                        lemma_path_prefix_push(Seq::<usize>::empty(), i, messages@[k2].path.0@);
                        if k1 < m1.len() {
                            assert(messages@[k1].path.0@ == m1[k1].path.0@);
                        }
                    } else {
                        assert(messages@[k1].path.0@ == m1[k1].path.0@);
                        assert(messages@[k2].path.0@ == m1[k2].path.0@);
                        assert(m1[k1].path.0@ != m1[k2].path.0@);
                    }
                }
            }
            proof {
                let fm = file.message_type@;
                assert(Seq::<usize>::empty().push(i) =~= seq![i]);
                assert(messages_tree_paths(fm, Seq::empty(), (i + 1) as nat)
                    == messages_tree_paths(fm, Seq::empty(), i as nat) + message_tree_paths(
                    fm[i as int],
                    seq![i],
                ));
                lemma_tree_block_grow(
                    m1,
                    messages@,
                    0,
                    messages_tree_paths(fm, Seq::empty(), i as nat),
                    message_tree_paths(fm[i as int], seq![i]),
                    e_top.len() as int,
                    e1.len() as int,
                    enums@.len() as int,
                    0,
                    o1.len() as int,
                    oneofs@.len() as int,
                );
            }
            top_level_messages.push(message_index);
            i = i + 1;
        }

        proof {
            assert forall|k: int| 0 <= k < messages@.len() implies spec_message_at(
                file.message_type@,
                (#[trigger] messages@[k]).path.0@,
            ) is Some by {
                assert(message_index_ok(*file, messages@, enums@, oneofs@, k));
            }
            lemma_index_complete(*file, messages@, enums@, oneofs@, top_level_messages@);
        }
    }

    /// Index a file: its enums, messages with their nested types, oneofs
    /// and fields, and file-level extensions. Fails when the fields of a
    /// message conflict.
    #[verifier::spinoff_prover]
    pub fn new(file: &FileDescriptorProto, dependencies: Vec<FileDescriptor>) -> (r: Result<
        FileDescriptorCommon,
        ReflectError,
    >)
        ensures
            r is Ok <==> file_fields_unique(*file),
            r matches Ok(c) ==> index_of_file(c, *file) && c.dependencies@ == dependencies@,
            r matches Err(ReflectError::NonUniqueFieldName(name)) ==> exists|k: int, i: int|
                #[trigger] is_first_conflicting_in_order(*file, k) && #[trigger] is_first_conflict(
                    message_in_order(*file, k).field@,
                    i,
                ) && name@ == message_in_order(*file, k).field@[i].name@,
    {
        let mut messages: Vec<MessageIndex> = Vec::new();
        let mut enums: Vec<EnumIndex> = Vec::new();
        let mut oneofs: Vec<OneofIndex> = Vec::new();
        let mut top_level_messages: Vec<usize> = Vec::new();
        Self::index_messages_and_enums(
            file,
            &mut messages,
            &mut enums,
            &mut oneofs,
            &mut top_level_messages,
        );
        let message_by_name_to_package = Self::build_message_by_name_to_package(
            messages.as_slice(),
        );
        let enums_by_name_to_package = Self::build_enum_by_name_to_package(enums.as_slice());

        let mut fields: Vec<FieldIndex> = Vec::new();
        let ghost m_before = messages@;
        proof {
            lemma_block_whole(
                m_before,
                file_message_paths(*file),
                file.enum_type@.len() as int,
                enums@.len() as int,
                0,
                oneofs@.len() as int,
            );
        }
        match Self::build_message_index(file, &mut messages, &mut fields) {
            Ok(()) => {},
            Err(e) => {
                proof {
                    let ghost m = m_before;
                    assert(exists|k: int| is_first_conflicting_message(*file, m, k));
                    let k = choose|k: int| is_first_conflicting_message(*file, m, k);
                    let p = m[k].path.0@;
                    assert(spec_message_at(file.message_type@, p) is Some);
                    assert(!file_fields_unique(*file));
                    let name = match e {
                        ReflectError::NonUniqueFieldName(ref n) => n@,
                    };
                    lemma_first_conflict_in_order(*file, m, name);
                }
                return Err(e);
            },
        }
        let ghost f_mid = fields@;
        let first_extension_field_index = fields.len();
        let ghost f1 = fields@;
        let mut t: usize = 0;
        while t < file.extension.len()
            invariant
                t <= file.extension@.len(),
                fields@.len() == first_extension_field_index + t,
                first_extension_field_index == f1.len(),
                is_prefix(f1, fields@),
                forall|u: int|
                    0 <= u < t ==> (#[trigger] fields@[first_extension_field_index + u]).json_name@
                        == file.extension@[u].json_name@,
            decreases file.extension@.len() - t,
        {
            fields.push(FieldIndex::index(None, &file.extension[t]));
            t = t + 1;
        }
        let c = FileDescriptorCommon {
            dependencies,
            messages,
            message_by_name_to_package,
            enums,
            top_level_messages,
            enums_by_name_to_package,
            oneofs,
            first_extension_field_index,
            fields,
        };
        proof {
            lemma_index_of_file(*file, c, m_before, f_mid, file.enum_type@.len() as int);
        }
        Ok(c)
    }
}

/// What indexing has built, before the fields were indexed (`m_before`)
/// and before the file-level extensions were added (`f_mid`), makes `c`
/// the index of `file`; and no message of the file has conflicting fields.
proof fn lemma_index_of_file(
    file: FileDescriptorProto,
    c: FileDescriptorCommon,
    m_before: Seq<MessageIndex>,
    f_mid: Seq<FieldIndex>,
    n_top: int,
)
    requires
        n_top == file.enum_type@.len(),
        m_before.len() == c.messages@.len(),
        forall|k: int|
            0 <= k < m_before.len() ==> message_index_ok(file, m_before, c.enums@, c.oneofs@, k),
        forall|k: int| 0 <= k < m_before.len() ==> same_layout(m_before[k], #[trigger] c.messages@[k]),
        forall|k: int|
            0 <= k < m_before.len() ==> fields_unique(
                #[trigger] indexed_proto(file, m_before[k]).field@,
            ),
        forall|k: int|
            0 <= k < m_before.len() ==> fields_index_ok(
                (#[trigger] c.messages@[k]).message_index,
                indexed_proto(file, m_before[k]),
                f_mid,
            ),
        laid_end_to_end(field_ranges(c.messages@), 0, f_mid.len() as int),
        is_prefix(f_mid, c.fields@),
        c.first_extension_field_index == f_mid.len(),
        c.fields@.len() == f_mid.len() + file.extension@.len(),
        forall|u: int|
            0 <= u < file.extension@.len() ==> (#[trigger] c.fields@[c.first_extension_field_index
                + u]).json_name@ == file.extension@[u].json_name@,
        messages_complete(file, m_before),
        paths_distinct(m_before, 0),
        c.top_level_messages@.len() == file.message_type@.len(),
        forall|i: int|
            0 <= i < c.top_level_messages@.len() ==> #[trigger] c.top_level_messages@[i]
                < m_before.len() && m_before[c.top_level_messages@[i] as int].path.0@ == seq![
                i as usize,
            ],
        n_top <= c.enums@.len(),
        forall|i: int|
            0 <= i < n_top ==> enum_index_ok(
                file,
                #[trigger] c.enums@[i],
                Seq::empty(),
                i,
                file.enum_type@[i],
                file.enum_type@[i].name@,
                None,
            ),
        c.message_by_name_to_package@ == messages_by_name_to_package(m_before),
        c.enums_by_name_to_package@ == enums_by_name_to_package(c.enums@),
        block_in_tree_order(
            m_before,
            0,
            file_message_paths(file),
            n_top,
            c.enums@.len() as int,
            0,
            c.oneofs@.len() as int,
        ),
    ensures
        index_of_file(c, file),
        file_fields_unique(file),
{
    reveal(index_of_file);
    let messages = c.messages@;
    assert forall|k: int| 0 <= k < m_before.len() implies (#[trigger] messages[k]).path.0@
        == m_before[k].path.0@ && messages[k].first_enum_index == m_before[k].first_enum_index
        && messages[k].enum_count == m_before[k].enum_count && messages[k].first_oneof_index
        == m_before[k].first_oneof_index && messages[k].oneof_count == m_before[k].oneof_count by {
        assert(same_layout(m_before[k], messages[k]));
    }
    lemma_block_same_layout(
        m_before,
        messages,
        0,
        file_message_paths(file),
        n_top,
        c.enums@.len() as int,
        0,
        c.oneofs@.len() as int,
    );
    lemma_block_whole(
        messages,
        file_message_paths(file),
        n_top,
        c.enums@.len() as int,
        0,
        c.oneofs@.len() as int,
    );
    lemma_message_index_ok_frame_range(
        file,
        m_before,
        c.enums@,
        c.oneofs@,
        messages,
        c.enums@,
        c.oneofs@,
        0,
    );
    assert forall|path: Seq<usize>| #[trigger]
        spec_message_at(file.message_type@, path) is Some implies fields_unique(
        spec_message_at(file.message_type@, path).unwrap().field@,
    ) by {
        let k = choose|k: int| 0 <= k < m_before.len() && m_before[k].path.0@ == path;
        assert(fields_unique(indexed_proto(file, m_before[k]).field@));
    }
    assert forall|k: int| 0 <= k < messages.len() implies fields_index_ok(
        (#[trigger] messages[k]).message_index,
        indexed_proto(file, messages[k]),
        c.fields@,
    ) by {
        assert(same_layout(m_before[k], messages[k]));
        let mfi = messages[k].message_index;
        assert forall|u: int| 0 <= u < mfi.field_count implies (
        #[trigger] c.fields@[mfi.first_field_index + u]).json_name@ == indexed_proto(
            file,
            messages[k],
        ).field@[u].json_name@ by {
            assert(c.fields@[mfi.first_field_index + u] == f_mid[mfi.first_field_index + u]);
        }
    }
    assert(messages_complete(file, messages)) by {
        assert forall|path: Seq<usize>| #[trigger]
            spec_message_at(file.message_type@, path) is Some implies exists|k: int|
            0 <= k < messages.len() && messages[k].path.0@ == path by {
            let k = choose|k: int| 0 <= k < m_before.len() && m_before[k].path.0@ == path;
            assert(same_layout(m_before[k], messages[k]));
        }
    }
    assert forall|k1: int, k2: int| 0 <= k1 < k2 < messages.len() implies (
    #[trigger] messages[k1]).path.0@ != (#[trigger] messages[k2]).path.0@ by {
        assert(same_layout(m_before[k1], messages[k1]));
        assert(same_layout(m_before[k2], messages[k2]));
    }
    assert forall|i: int| 0 <= i < c.top_level_messages@.len() implies #[trigger] c.top_level_messages@[i]
        < messages.len() && messages[c.top_level_messages@[i] as int].path.0@ == seq![i as usize] by {
        let t = c.top_level_messages@[i] as int;
        assert(same_layout(m_before[t], messages[t]));
    }
    lemma_messages_by_name_to_package_layout(m_before, messages);
}

/// The parts of the index of a file that relate messages and enums.
proof fn lemma_index_of_file_parts(file: FileDescriptorProto, c: FileDescriptorCommon)
    requires
        index_of_file(c, file),
    ensures
        forall|k: int|
            0 <= k < c.messages@.len() ==> #[trigger] message_index_ok(
                file,
                c.messages@,
                c.enums@,
                c.oneofs@,
                k,
            ),
        paths_distinct(c.messages@, 0),
        laid_end_to_end(
            enum_ranges(c.messages@),
            file.enum_type@.len() as int,
            c.enums@.len() as int,
        ),
        file.enum_type@.len() <= c.enums@.len(),
        forall|e: int|
            0 <= e < file.enum_type@.len() ==> (#[trigger] c.enums@[e]).enclosing_message is None,
{
    reveal(index_of_file);
    assert forall|e: int| 0 <= e < file.enum_type@.len() implies (
    #[trigger] c.enums@[e]).enclosing_message is None by {
        assert(enum_index_ok(
            file,
            c.enums@[e],
            Seq::empty(),
            e,
            file.enum_type@[e],
            file.enum_type@[e].name@,
            None,
        ));
    }
}

/// A point between the start and the end of ranges that lie end to end
/// falls in one of them.
pub proof fn lemma_laid_end_to_end_cover(ranges: Seq<(int, int)>, start: int, end: int, x: int)
    requires
        laid_end_to_end(ranges, start, end),
        start <= x < end,
    ensures
        exists|k: int| 0 <= k < ranges.len() && (#[trigger] ranges[k]).0 <= x < ranges[k].0 + ranges[k].1,
    decreases ranges.len(),
{
    if ranges.len() > 0 {
        let n = ranges.len() - 1;
        if x >= ranges[n].0 {
            assert(ranges[n].0 <= x < ranges[n].0 + ranges[n].1);
        } else if n > 0 {
            let pre = ranges.drop_last();
            assert(ranges[n].0 == ranges[n - 1].0 + ranges[n - 1].1);
            assert forall|k: int| 0 < k < pre.len() implies #[trigger] pre[k].0 == pre[k - 1].0
                + pre[k - 1].1 by {
                assert(ranges[k].0 == ranges[k - 1].0 + ranges[k - 1].1);
            }
            lemma_laid_end_to_end_cover(pre, start, ranges[n].0, x);
            let k = choose|k: int| 0 <= k < pre.len() && (#[trigger] pre[k]).0 <= x < pre[k].0 + pre[k].1;
            assert(ranges[k] == pre[k]);
        }
    }
}

/// In the index of a file, message `j` is nested in message `i` exactly
/// when `i` is its enclosing message; an enclosing message comes before
/// the messages nested in it; and each message's full name is the package
/// joined with its name relative to the package.
pub proof fn lemma_index_parent_child(file: FileDescriptorProto, c: FileDescriptorCommon, i: int, j: int)
    requires
        index_of_file(c, file),
        0 <= i < c.messages@.len(),
        0 <= j < c.messages@.len(),
    ensures
        c.messages@[i].nested_messages@.contains(j as usize) <==> c.messages@[j].enclosing_message
            == Some(i as usize),
        c.messages@[j].enclosing_message == Some(i as usize) ==> i < j,
        c.messages@[i].full_name@ == spec_concat_paths(
            file.package@,
            c.messages@[i].name_to_package@,
        ),
{
    lemma_index_of_file_parts(file, c);
    let ms = c.messages@;
    let fm = file.message_type@;
    assert(c.messages.len() == ms.len());
    assert(message_index_ok(file, ms, c.enums@, c.oneofs@, i));
    assert(message_index_ok(file, ms, c.enums@, c.oneofs@, j));
    if ms[i].nested_messages@.contains(j as usize) {
        let t = choose|t: int|
            0 <= t < ms[i].nested_messages@.len() && ms[i].nested_messages@[t] == j as usize;
        assert(ms[ms[i].nested_messages@[t] as int].enclosing_message == Some(i as usize));
    }
    if ms[j].enclosing_message == Some(i as usize) {
        let pj = ms[j].path.0@;
        let pi = ms[i].path.0@;
        if pj.len() == 1 {
            assert(ms[j].enclosing_message is None);
        }
        assert(pj.len() > 1);
        assert(ms[j].enclosing_message.unwrap() as int == i);
        assert(pi == pj.drop_last());
        lemma_message_at_drop_last(fm, pj);
        let t = pj.last() as int;
        let n = ms[i].nested_messages@[t];
        assert(ms[n as int].path.0@ == pi.push(t as usize));
        assert(ms[n as int].path.0@ == pj);
        if n as int != j {
            if (n as int) < j {
                assert(ms[n as int].path.0@ != ms[j].path.0@);
            } else {
                assert(ms[j].path.0@ != ms[n as int].path.0@);
            }
        }
        assert(ms[i].nested_messages@[t] == j as usize);
    }
}

/// In the index of a file, an enum whose enclosing message is `i` lies in
/// the block of enums of message `i`.
pub proof fn lemma_index_enum_in_parent_block(
    file: FileDescriptorProto,
    c: FileDescriptorCommon,
    e: int,
    i: int,
)
    requires
        index_of_file(c, file),
        0 <= e < c.enums@.len(),
        0 <= i < c.messages@.len(),
        c.enums@[e].enclosing_message == Some(i as usize),
    ensures
        c.messages@[i].first_enum_index <= e < c.messages@[i].first_enum_index
            + c.messages@[i].enum_count,
{
    lemma_index_of_file_parts(file, c);
    let ms = c.messages@;
    let n_top = file.enum_type@.len() as int;
    assert(c.messages.len() == ms.len());
    if e < n_top {
        assert(c.enums@[e].enclosing_message is None);
    } else {
        let ranges = enum_ranges(ms);
        lemma_laid_end_to_end_cover(ranges, n_top, c.enums@.len() as int, e);
        let k = choose|k: int|
            0 <= k < ranges.len() && (#[trigger] ranges[k]).0 <= e < ranges[k].0 + ranges[k].1;
        assert(message_index_ok(file, ms, c.enums@, c.oneofs@, k));
        let mk = ms[k];
        assert(ranges[k] == (mk.first_enum_index as int, mk.enum_count as int));
        let jj = e - mk.first_enum_index;
        assert(0 <= jj < mk.enum_count);
        assert(enum_index_ok(
            file,
            c.enums@[mk.first_enum_index + jj],
            mk.path.0@,
            jj,
            indexed_proto(file, mk).enum_type@[jj],
            spec_concat_paths(mk.name_to_package@, indexed_proto(file, mk).enum_type@[jj].name@),
            Some(k as usize),
        ));
        assert(c.enums@[e].enclosing_message == Some(k as usize));
        assert(k == i);
    }
}

/// The name index of messages only reads the names, which do not change
/// with the field index.
proof fn lemma_messages_by_name_to_package_layout(m1: Seq<MessageIndex>, m2: Seq<MessageIndex>)
    requires
        m1.len() == m2.len(),
        forall|k: int| 0 <= k < m1.len() ==> same_layout(m1[k], #[trigger] m2[k]),
    ensures
        messages_by_name_to_package(m1) == messages_by_name_to_package(m2),
    decreases m1.len(),
{
    if m1.len() > 0 {
        assert(same_layout(m1[m1.len() - 1], m2[m1.len() - 1]));
        assert forall|k: int| 0 <= k < m1.drop_last().len() implies same_layout(
            m1.drop_last()[k],
            #[trigger] m2.drop_last()[k],
        ) by {
            assert(same_layout(m1[k], m2[k]));
        }
        lemma_messages_by_name_to_package_layout(m1.drop_last(), m2.drop_last());
    }
}

/// Every message of the file has an entry, when the top-level messages
/// have entries and every entry lists its nested messages.
pub proof fn lemma_index_complete(
    file: FileDescriptorProto,
    messages: Seq<MessageIndex>,
    enums: Seq<EnumIndex>,
    oneofs: Seq<OneofIndex>,
    top_level_messages: Seq<usize>,
)
    requires
        forall|k: int| 0 <= k < messages.len() ==> message_index_ok(file, messages, enums, oneofs, k),
        top_level_messages.len() == file.message_type@.len(),
        forall|t: int|
            0 <= t < top_level_messages.len() ==> #[trigger] top_level_messages[t] < messages.len()
                && messages[top_level_messages[t] as int].path.0@ == seq![t as usize],
    ensures
        messages_complete(file, messages),
{
    assert forall|path: Seq<usize>| #[trigger]
        spec_message_at(file.message_type@, path) is Some implies exists|k: int|
        0 <= k < messages.len() && messages[k].path.0@ == path by {
        lemma_index_complete_path(file, messages, enums, oneofs, top_level_messages, path);
    }
}

proof fn lemma_index_complete_path(
    file: FileDescriptorProto,
    messages: Seq<MessageIndex>,
    enums: Seq<EnumIndex>,
    oneofs: Seq<OneofIndex>,
    top_level_messages: Seq<usize>,
    path: Seq<usize>,
)
    requires
        forall|k: int| 0 <= k < messages.len() ==> message_index_ok(file, messages, enums, oneofs, k),
        top_level_messages.len() == file.message_type@.len(),
        forall|t: int|
            0 <= t < top_level_messages.len() ==> #[trigger] top_level_messages[t] < messages.len()
                && messages[top_level_messages[t] as int].path.0@ == seq![t as usize],
        spec_message_at(file.message_type@, path) is Some,
    ensures
        exists|k: int| 0 <= k < messages.len() && messages[k].path.0@ == path,
    decreases path.len(),
{
    if path.len() == 1 {
        let t = path[0] as int;
        assert(top_level_messages[t] < messages.len());
        assert(path =~= seq![path[0]]);
        let k = top_level_messages[t] as int;
        assert(messages[k].path.0@ == path);
    } else {
        lemma_message_at_drop_last(file.message_type@, path);
        let parent = path.drop_last();
        lemma_index_complete_path(file, messages, enums, oneofs, top_level_messages, parent);
        let kp = choose|k: int| 0 <= k < messages.len() && messages[k].path.0@ == parent;
        assert(message_index_ok(file, messages, enums, oneofs, kp));
        let last = path.last();
        let child = messages[kp].nested_messages@[last as int];
        assert(messages[child as int].path.0@ == parent.push(last));
    }
}

} // verus!
