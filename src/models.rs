//! Issue-tracker records that the dispatcher reads, and the draft of a new issue.
use vstd::prelude::*;

use crate::text::chars_of;
use vstd::multiset::Multiset;

verus! {

/// Whether the current user has voted for an issue.
#[derive(Clone, Debug, PartialEq)]
pub struct IssueVoters {
    pub has_vote: bool,
}

/// One issue of a backlog page.
#[derive(Clone, Debug, PartialEq)]
pub struct Issue {
    pub id_readable: String,
    pub summary: String,
    pub votes: i32,
    pub voters: IssueVoters,
}

/// The error body that the tracker returns with a failed request.
#[derive(Clone, Debug, PartialEq)]
pub struct YoutrackError {
    pub error: String,
    pub error_description: String,
    pub error_developer_message: String,
}

#[derive(Clone, Debug, PartialEq)]
pub struct FieldType {
    pub id: String,
}

#[derive(Clone, Debug, PartialEq)]
pub struct CustomField {
    pub id: String,
    pub name: String,
    pub field_type: FieldType,
}

/// One value of an enumerated field, such as a stream or an issue type.
#[derive(Clone, Debug, PartialEq)]
pub struct BundleElement {
    pub id: String,
    pub name: String,
}

/// The set of values an enumerated field may take.
#[derive(Clone, Debug, PartialEq)]
pub struct Bundle {
    pub id: String,
    pub values: Option<Vec<BundleElement>>,
}

#[derive(Clone, Debug, PartialEq)]
pub struct ProjectCustomField {
    pub id: String,
    pub field: CustomField,
    pub ordinal: i32,
    pub can_be_emtpy: bool,
    pub bundle: Option<Bundle>,
}

#[derive(Clone, Debug, PartialEq)]
pub struct ProjectId {
    pub id: String,
}

#[derive(Clone, Debug, PartialEq)]
pub struct Project {
    pub id: String,
    pub name: Option<String>,
    pub short_name: Option<String>,
    pub fields: Vec<ProjectCustomField>,
}

/// Whether an element of `values` is named `name`.
pub open spec fn bundle_holds(values: Option<Vec<BundleElement>>, name: Seq<char>) -> bool {
    match values {
        Some(v) => exists|i: int| 0 <= i < v@.len() && (#[trigger] v@[i]).name@ == name,
        None => false,
    }
}

impl Bundle {
    /// Whether `name` is one of the values of this bundle.
    pub fn has_value(&self, name: &str) -> (r: bool)
        ensures
            r == bundle_holds(self.values, name@),
    {
        let wanted = name.to_owned();
        match &self.values {
            Some(values) => {
                let mut i: usize = 0;
                while i < values.len()
                    invariant
                        self.values is Some,
                        self.values->0@ == values@,
                        wanted@ == name@,
                        0 <= i <= values@.len(),
                        forall|j: int| 0 <= j < i ==> (#[trigger] values@[j]).name@ != name@,
                    decreases values@.len() - i,
                {
                    if values[i].name == wanted {
                        assert(values@[i as int].name@ == name@);
                        return true;
                    }
                    i = i + 1;
                }
                false
            },
            None => false,
        }
    }
}

/// Index of the first field of `fields` whose name is `name`, if any.
pub open spec fn first_field_named(fields: Seq<ProjectCustomField>, name: Seq<char>) -> Option<int>
    decreases fields.len(),
{
    if fields.len() == 0 {
        None
    } else if fields[0].field.name@ == name {
        Some(0)
    } else {
        match first_field_named(fields.drop_first(), name) {
            Some(i) => Some(i + 1),
            None => None,
        }
    }
}

proof fn lemma_first_field_named(fields: Seq<ProjectCustomField>, name: Seq<char>, i: int)
    requires
        0 <= i < fields.len(),
        fields[i].field.name@ == name,
        forall|j: int| 0 <= j < i ==> (#[trigger] fields[j]).field.name@ != name,
    ensures
        first_field_named(fields, name) == Some(i),
    decreases i,
{
    if i > 0 {
        assert forall|j: int| 0 <= j < i - 1 implies (#[trigger] fields.drop_first()[j]).field.name@
            != name by {
            assert(fields.drop_first()[j] == fields[j + 1]);
        }
        lemma_first_field_named(fields.drop_first(), name, i - 1);
    }
}

proof fn lemma_no_field_named(fields: Seq<ProjectCustomField>, name: Seq<char>)
    requires
        forall|j: int| 0 <= j < fields.len() ==> (#[trigger] fields[j]).field.name@ != name,
    ensures
        first_field_named(fields, name) is None,
    decreases fields.len(),
{
    if fields.len() > 0 {
        assert forall|j: int| 0 <= j < fields.len() - 1 implies (
        #[trigger] fields.drop_first()[j]).field.name@ != name by {
            assert(fields.drop_first()[j] == fields[j + 1]);
        }
        lemma_no_field_named(fields.drop_first(), name);
    }
}

impl Project {
    /// The first custom field of this project that is named `field_name`.
    pub fn get_project_custom_field(&self, field_name: &str) -> (r: Option<&ProjectCustomField>)
        ensures
            match first_field_named(self.fields@, field_name@) {
                Some(i) => r == Some(&self.fields@[i]),
                None => r is None,
            },
    {
        let name = field_name.to_owned();
        let mut i: usize = 0;
        while i < self.fields.len()
            invariant
                0 <= i <= self.fields@.len(),
                name@ == field_name@,
                forall|j: int| 0 <= j < i ==> (#[trigger] self.fields@[j]).field.name@ != name@,
            decreases self.fields@.len() - i,
        {
            if self.fields[i].field.name == name {
                proof {
                    lemma_first_field_named(self.fields@, name@, i as int);
                }
                return Some(&self.fields[i]);
            }
            i = i + 1;
        }
        proof {
            lemma_no_field_named(self.fields@, name@);
        }
        None
    }
}

/// The value of an enumerated custom field of a new issue.
#[derive(Clone, Debug, PartialEq)]
pub struct IssueDraftCustomFieldValue {
    pub name: String,
}

impl IssueDraftCustomFieldValue {
    pub fn new(name: String) -> (r: Self)
        ensures
            r == (IssueDraftCustomFieldValue { name }),
    {
        Self { name }
    }
}

/// One custom-field assignment of a new issue.
#[derive(Clone, Debug, PartialEq)]
pub struct IssueDraftCustomField {
    pub value: IssueDraftCustomFieldValue,
    pub name: String,
    pub id: String,
    pub type_: String,
}

/// The tracker's type tag for a single-valued enumerated custom field.
pub open spec fn single_enum_kind() -> Seq<char> {
    "SingleEnumIssueCustomField"@
}

impl IssueDraftCustomField {
    /// Assigns `value` to the enumerated field `name`, whose tracker id is `id`.
    pub fn new(id: String, name: String, value: String) -> (r: Self)
        ensures
            r.value == (IssueDraftCustomFieldValue { name: value }),
            r.name == name,
            r.id == id,
            r.type_@ == single_enum_kind(),
    {
        Self {
            value: IssueDraftCustomFieldValue::new(value),
            name,
            id,
            type_: "SingleEnumIssueCustomField".to_owned(),
        }
    }
}

/// A new issue, filled in field by field before it is sent to the tracker.
#[derive(Clone, Debug, PartialEq)]
pub struct IssueDraft {
    pub summary: String,
    pub description: String,
    pub project: Option<ProjectId>,
    pub custom_fields: Vec<IssueDraftCustomField>,
}

impl IssueDraft {
    /// An empty draft: no text, no project, no custom fields.
    pub fn new() -> (r: Self)
        ensures
            r.summary@ == Seq::<char>::empty(),
            r.description@ == Seq::<char>::empty(),
            r.project is None,
            r.custom_fields@ == Seq::<IssueDraftCustomField>::empty(),
    {
        Self {
            summary: String::new(),
            description: String::new(),
            project: None,
            custom_fields: Vec::new(),
        }
    }

    pub fn summary(&mut self, summary: String) -> (r: &mut Self)
        ensures
            *r == (IssueDraft { summary, ..*old(self) }),
            *final(self) == *final(r),
    {
        self.summary = summary;
        self
    }

    pub fn desc(&mut self, desc: String) -> (r: &mut Self)
        ensures
            *r == (IssueDraft { description: desc, ..*old(self) }),
            *final(self) == *final(r),
    {
        self.description = desc;
        self
    }

    pub fn project(&mut self, project: ProjectId) -> (r: &mut Self)
        ensures
            *r == (IssueDraft { project: Some(project), ..*old(self) }),
            *final(self) == *final(r),
    {
        self.project = Some(project);
        self
    }

    /// Appends the assignment of `value` to the enumerated field `name` (tracker id `id`).
    pub fn custom_field(&mut self, id: String, name: String, value: String) -> (r: &mut Self)
        ensures
            r.summary == old(self).summary,
            r.description == old(self).description,
            r.project == old(self).project,
            r.custom_fields@.len() == old(self).custom_fields@.len() + 1,
            r.custom_fields@.drop_last() == old(self).custom_fields@,
            r.custom_fields@.last().value == (IssueDraftCustomFieldValue { name: value }),
            r.custom_fields@.last().name == name,
            r.custom_fields@.last().id == id,
            r.custom_fields@.last().type_@ == single_enum_kind(),
            *final(self) == *final(r),
    {
        self.custom_fields.push(IssueDraftCustomField::new(id, name, value));
        assert(self.custom_fields@.drop_last() =~= old(self).custom_fields@);
        self
    }
}

/// Whether text `a` comes no later than `b`: character by character, a prefix first.
/// For strings this is the order of their UTF-8 bytes.
pub open spec fn text_le(a: Seq<char>, b: Seq<char>) -> bool
    decreases a.len(),
{
    if a.len() == 0 {
        true
    } else if b.len() == 0 {
        false
    } else if a[0] != b[0] {
        a[0] < b[0]
    } else {
        text_le(a.drop_first(), b.drop_first())
    }
}

/// The order of project names: an unnamed project first, then names as text.
pub open spec fn name_le(a: Option<String>, b: Option<String>) -> bool {
    match (a, b) {
        (None, _) => true,
        (Some(_), None) => false,
        (Some(x), Some(y)) => text_le(x@, y@),
    }
}

/// Whether each project's name comes no later than the next one's.
pub open spec fn sorted_by_name(ps: Seq<Project>) -> bool {
    forall|i: int| 0 <= i < ps.len() - 1 ==> name_le(#[trigger] ps[i].name, ps[i + 1].name)
}

proof fn lemma_text_le_total(a: Seq<char>, b: Seq<char>)
    ensures
        text_le(a, b) || text_le(b, a),
    decreases a.len(),
{
    if a.len() > 0 && b.len() > 0 && a[0] == b[0] {
        lemma_text_le_total(a.drop_first(), b.drop_first());
    }
}

fn text_le_exec(a: &String, b: &String) -> (r: bool)
    ensures
        r == text_le(a@, b@),
{
    let x = chars_of(a.as_str());
    let y = chars_of(b.as_str());
    let mut i: usize = 0;
    assert(x@.skip(0) =~= x@ && y@.skip(0) =~= y@);
    loop
        invariant
            x@ == a@,
            y@ == b@,
            0 <= i <= x@.len(),
            i <= y@.len(),
            text_le(a@, b@) == text_le(x@.skip(i as int), y@.skip(i as int)),
        decreases x@.len() - i,
    {
        if i == x.len() {
            return true;
        }
        if i == y.len() {
            return false;
        }
        if x[i] != y[i] {
            return x[i] < y[i];
        }
        assert(x@.skip(i as int).drop_first() =~= x@.skip(i + 1));
        assert(y@.skip(i as int).drop_first() =~= y@.skip(i + 1));
        i = i + 1;
    }
}

fn name_le_exec(a: &Option<String>, b: &Option<String>) -> (r: bool)
    ensures
        r == name_le(*a, *b),
{
    match (a, b) {
        (None, _) => true,
        (Some(_), None) => false,
        (Some(x), Some(y)) => text_le_exec(x, y),
    }
}

proof fn lemma_insert_sorted(r: Seq<Project>, k: int, x: Project)
    requires
        sorted_by_name(r),
        0 <= k <= r.len(),
        k > 0 ==> name_le(r[k - 1].name, x.name),
        k < r.len() ==> name_le(x.name, r[k].name),
    ensures
        sorted_by_name(r.insert(k, x)),
{
    let s = r.insert(k, x);
    assert forall|i: int| 0 <= i < s.len() - 1 implies name_le(#[trigger] s[i].name, s[i + 1].name) by {
        if i < k - 1 {
            assert(s[i] == r[i] && s[i + 1] == r[i + 1]);
        } else if i > k {
            assert(s[i] == r[i - 1] && s[i + 1] == r[i]);
        }
    }
}

proof fn lemma_move_first(r: Seq<Project>, k: int, ps: Seq<Project>)
    requires
        0 <= k <= r.len(),
        ps.len() > 0,
    ensures
        r.insert(k, ps[0]).to_multiset().add(ps.remove(0).to_multiset()) == r.to_multiset().add(
            ps.to_multiset(),
        ),
{
    broadcast use vstd::seq_lib::group_to_multiset_ensures;

    assert(r.insert(k, ps[0]).to_multiset().add(ps.remove(0).to_multiset()) =~= r.to_multiset().add(
        ps.to_multiset(),
    ));
}

/// The projects ordered by name; projects with the same name keep their order.
pub fn sort_projects_by_name(ps: Vec<Project>) -> (r: Vec<Project>)
    ensures
        r@.to_multiset() == ps@.to_multiset(),
        sorted_by_name(r@),
{
    let ghost all = ps@;
    let mut ps = ps;
    let mut r: Vec<Project> = Vec::new();
    proof {
        broadcast use vstd::seq_lib::group_to_multiset_ensures;

        assert(r@.to_multiset().add(ps@.to_multiset()) =~= all.to_multiset());
    }
    while ps.len() > 0
        invariant
            r@.to_multiset().add(ps@.to_multiset()) == all.to_multiset(),
            sorted_by_name(r@),
        decreases ps@.len(),
    {
        let ghost before = ps@;
        let x = ps.remove(0);
        let mut k: usize = 0;
        while k < r.len() && name_le_exec(&r[k].name, &x.name)
            invariant
                0 <= k <= r@.len(),
                k > 0 ==> name_le(r@[k - 1].name, x.name),
            decreases r@.len() - k,
        {
            k = k + 1;
        }
        proof {
            if k < r@.len() {
                let rk = r@[k as int].name;
                let xn = x.name;
                if rk is Some && xn is Some {
                    lemma_text_le_total(rk->0@, xn->0@);
                }
            }
            lemma_insert_sorted(r@, k as int, x);
            lemma_move_first(r@, k as int, before);
        }
        r.insert(k, x);
    }
    proof {
        broadcast use vstd::seq_lib::group_to_multiset_ensures;

        assert(ps@.to_multiset() =~= Multiset::<Project>::empty());
        assert(r@.to_multiset().add(ps@.to_multiset()) =~= r@.to_multiset());
    }
    r
}

} // verus!
