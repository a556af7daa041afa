//! The domain rules behind every mutation: names, priorities and slugs; new organizations,
//! projects and tasks; patches and status transitions; and the seed workspace.
use vstd::prelude::*;
use crate::error::CoreError;
use crate::models::{
    NewOrganization, NewProject, NewTask, Organization, OrganizationPatch, Project, ProjectPatch,
    ProjectStatus, ProjectType, Task, TaskPatch, TaskStatus,
};
use crate::text::{
    all_ascii, ascii_lower, lowercase_text, to_lowercase, to_string, trim, trim_end_char, trim_end_matches_char,
    trim_spec,
};
use crate::time::{Timestamp, NANOS_PER_HOUR};

verus! {

/// Where a mutation comes from; only local mutations are recorded as sync events.
#[derive(Clone, Copy, Debug, PartialEq, Eq, Structural)]
pub enum MutationOrigin {
    Local,
    Remote,
    Seed,
}

impl MutationOrigin {
    /// Whether the mutation is recorded as a sync event.
    pub fn logs_sync_event(self) -> (r: bool)
        ensures
            r == (self == MutationOrigin::Local),
    {
        match self {
            MutationOrigin::Local => true,
            _ => false,
        }
    }
}

/// Refuse a name (or title) that is empty or only white space.
pub fn require_name(value: &str) -> (r: Result<(), CoreError>)
    ensures
        trim_spec(value@).len() == 0 <==> r is Err,
        r matches Err(e) ==> e matches CoreError::Validation(m) && m@ == "name cannot be empty"@,
{
    if trim(value).unicode_len() == 0 {
        Err(CoreError::Validation(to_string("name cannot be empty")))
    } else {
        Ok(())
    }
}

/// Refuse a priority outside P1..P5.
pub fn validate_priority(value: i32) -> (r: Result<(), CoreError>)
    ensures
        (1 <= value <= 5) <==> r is Ok,
        r matches Err(e) ==> e matches CoreError::Validation(m) && m@
            == "priority must be between 1 and 5"@,
{
    if 1 <= value && value <= 5 {
        Ok(())
    } else {
        Err(CoreError::Validation(to_string("priority must be between 1 and 5")))
    }
}

/// A write that changed no row did not find its record.
pub fn changed(rows: usize, entity: &'static str) -> (r: Result<(), CoreError>)
    ensures
        rows == 0 ==> (r matches Err(CoreError::NotFound(e)) && e@ == entity@),
        rows > 0 ==> r is Ok,
{
    if rows == 0 {
        Err(CoreError::NotFound(entity))
    } else {
        Ok(())
    }
}

/// Whether a character is an ASCII letter or digit.
pub open spec fn ascii_alnum(c: char) -> bool {
    ('a' <= c <= 'z') || ('A' <= c <= 'Z') || ('0' <= c <= '9')
}

/// The slug built from characters, before trailing dashes go: ASCII letters and digits are
/// kept, and every run of other characters after the first kept one becomes one `-`. The
/// flag says whether the slug ends in such a `-`.
pub open spec fn slug_build(cs: Seq<char>) -> (Seq<char>, bool)
    decreases cs.len(),
{
    if cs.len() == 0 {
        (Seq::empty(), false)
    } else {
        let (slug, sep) = slug_build(cs.drop_last());
        let c = cs.last();
        if ascii_alnum(c) {
            (slug.push(c), false)
        } else if slug.len() > 0 && !sep {
            (slug.push('-'), true)
        } else {
            (slug, sep)
        }
    }
}

/// The slug of a text: trimmed and lower-cased, letters and digits kept, other runs made one
/// `-`, and no `-` at either end.
pub open spec fn slug_of(value: Seq<char>) -> Seq<char> {
    trim_end_char(slug_build(lowercase_text(trim_spec(value))).0, '-')
}

fn is_ascii_alnum(c: char) -> (r: bool)
    ensures
        r == ascii_alnum(c),
{
    ('a' <= c && c <= 'z') || ('A' <= c && c <= 'Z') || ('0' <= c && c <= '9')
}

/// The slug of a text.
pub fn slugify(value: &str) -> (s: String)
    ensures
        s@ == slug_of(value@),
        all_ascii(value@) ==> s@ == ascii_slug(value@),
{
    proof {
        if all_ascii(value@) {
            crate::text::lemma_trim_keeps_ascii(value@);
        }
    }
    let lower = to_lowercase(trim(value));
    let cs = lower.as_str();
    let n = cs.unicode_len();
    let mut slug = String::new();
    let mut separator = false;
    let mut i: usize = 0;
    proof {
        assert(cs@.subrange(0, 0) =~= Seq::<char>::empty());
    }
    while i < n
        invariant
            n == cs@.len(),
            i <= n,
            (slug@, separator) == slug_build(cs@.subrange(0, i as int)),
        decreases n - i,
    {
        let c = cs.get_char(i);
        proof {
            let pre = cs@.subrange(0, i as int + 1);
            assert(pre.drop_last() =~= cs@.subrange(0, i as int));
            assert(pre.last() == c);
        }
        if is_ascii_alnum(c) {
            slug.push(c);
            separator = false;
        } else if slug.unicode_len() > 0 && !separator {
            slug.push('-');
            separator = true;
        }
        i = i + 1;
    }
    proof {
        assert(cs@.subrange(0, n as int) =~= cs@);
    }
    to_string(trim_end_matches_char(slug.as_str(), '-'))
}

proof fn lemma_trim_end_keeps_first(s: Seq<char>, c: char)
    requires
        s.len() > 0,
        s[0] != c,
    ensures
        trim_end_char(s, c).len() > 0,
    decreases s.len(),
{
    if s.last() == c {
        assert(s.len() > 1);
        assert(s.drop_last()[0] == s[0]);
        lemma_trim_end_keeps_first(s.drop_last(), c);
    }
}

/// Law: a slug holds only ASCII letters, digits and `-`; it neither starts nor ends with `-`
/// and never holds `--`; and it is empty exactly when the lower-cased, trimmed text has no
/// ASCII letter or digit.
pub proof fn lemma_slug_shape(value: Seq<char>)
    ensures
        forall|i: int| 0 <= i < slug_of(value).len() ==> {
            let c = #[trigger] slug_of(value)[i];
            ascii_alnum(c) || c == '-'
        },
        slug_of(value).len() > 0 ==> slug_of(value)[0] != '-' && slug_of(value).last() != '-',
        forall|i: int|
            0 <= i < slug_of(value).len() - 1 ==> !(#[trigger] slug_of(value)[i] == '-' && slug_of(value)[i + 1]
                == '-'),
        slug_of(value).len() > 0 <==> exists|i: int|
            0 <= i < lowercase_text(trim_spec(value)).len() && ascii_alnum(#[trigger] lowercase_text(trim_spec(value))[i]),
{
    let built = slug_build(lowercase_text(trim_spec(value)));
    lemma_slug_build(lowercase_text(trim_spec(value)));
    crate::text::lemma_trim_end_char_prefix(built.0, '-');
    let s = slug_of(value);
    assert forall|i: int| 0 <= i < s.len() implies {
        let c = #[trigger] s[i];
        ascii_alnum(c) || c == '-'
    } by {
        assert(s[i] == built.0[i]);
    }
    if s.len() > 0 {
        assert(s[0] == built.0[0]);
    }
    assert forall|i: int| 0 <= i < s.len() - 1 implies !(#[trigger] s[i] == '-' && s[i + 1] == '-') by {
        assert(s[i] == built.0[i] && s[i + 1] == built.0[i + 1]);
    }
    if built.0.len() > 0 {
        lemma_trim_end_keeps_first(built.0, '-');
    }
}

/// Whether a character is an upper-case ASCII letter.
pub open spec fn ascii_upper(c: char) -> bool {
    'A' <= c <= 'Z'
}

proof fn lemma_slug_build_no_upper(cs: Seq<char>)
    requires
        forall|i: int| 0 <= i < cs.len() ==> !ascii_upper(#[trigger] cs[i]),
    ensures
        forall|i: int| 0 <= i < slug_build(cs).0.len() ==> !ascii_upper(#[trigger] slug_build(cs).0[i]),
    decreases cs.len(),
{
    if cs.len() > 0 {
        let pre = cs.drop_last();
        assert forall|i: int| 0 <= i < pre.len() implies !ascii_upper(#[trigger] pre[i]) by {
            assert(pre[i] == cs[i]);
        }
        lemma_slug_build_no_upper(pre);
        let b = slug_build(pre).0;
        let out = slug_build(cs).0;
        assert forall|i: int| 0 <= i < out.len() implies !ascii_upper(#[trigger] out[i]) by {
            if i < b.len() {
                assert(out[i] == b[i]);
            } else {
                assert(!ascii_upper(cs[cs.len() - 1]));
            }
        }
    }
}

/// A text that is already a slug in shape builds to itself.
proof fn lemma_slug_build_fixed(s: Seq<char>)
    requires
        forall|i: int| 0 <= i < s.len() ==> ascii_alnum(#[trigger] s[i]) || s[i] == '-',
        s.len() > 0 ==> s[0] != '-',
        forall|i: int| 0 <= i < s.len() - 1 ==> !(#[trigger] s[i] == '-' && s[i + 1] == '-'),
    ensures
        slug_build(s).0 == s,
        slug_build(s).1 == (s.len() > 0 && s.last() == '-'),
    decreases s.len(),
{
    if s.len() > 0 {
        let pre = s.drop_last();
        assert forall|i: int| 0 <= i < pre.len() implies ascii_alnum(#[trigger] pre[i]) || pre[i] == '-' by {
            assert(pre[i] == s[i]);
        }
        assert forall|i: int| 0 <= i < pre.len() - 1 implies !(#[trigger] pre[i] == '-' && pre[i + 1] == '-') by {
            assert(pre[i] == s[i] && pre[i + 1] == s[i + 1]);
        }
        if pre.len() > 0 {
            assert(pre[0] == s[0]);
        }
        lemma_slug_build_fixed(pre);
        let c = s.last();
        if !ascii_alnum(c) {
            assert(c == '-');
            assert(s.len() >= 2);
            assert(!(s[s.len() - 2] == '-' && s[s.len() - 1] == '-'));
            assert(pre.last() == s[s.len() - 2]);
        }
        assert(pre.push(c) =~= s);
    }
}

/// The slug of an ASCII text: as `slug_of`, with ASCII lower-casing in place of the full one
/// (they agree on ASCII text).
pub open spec fn ascii_slug(value: Seq<char>) -> Seq<char> {
    trim_end_char(slug_build(trim_spec(value).map_values(|c: char| ascii_lower(c))).0, '-')
}

/// Law: the slug of an ASCII text holds only ASCII lower-case letters, digits and `-`, is
/// itself ASCII, and slugging it again changes nothing.
pub proof fn lemma_ascii_slug(value: Seq<char>)
    requires
        all_ascii(value),
    ensures
        forall|i: int| 0 <= i < ascii_slug(value).len() ==> {
            let c = #[trigger] ascii_slug(value)[i];
            ('a' <= c <= 'z') || ('0' <= c <= '9') || c == '-'
        },
        all_ascii(ascii_slug(value)),
        ascii_slug(ascii_slug(value)) == ascii_slug(value),
{
    let low = trim_spec(value).map_values(|c: char| ascii_lower(c));
    assert forall|i: int| 0 <= i < low.len() implies !ascii_upper(#[trigger] low[i]) by {
        let c = trim_spec(value)[i];
        assert(low[i] == ascii_lower(c));
        if 'A' <= c <= 'Z' {
            assert('a' <= ((c as u32) + 32) as char <= 'z');
        }
    }
    lemma_slug_build_no_upper(low);
    lemma_slug_build(low);
    let built = slug_build(low).0;
    crate::text::lemma_trim_end_char_prefix(built, '-');
    let s = ascii_slug(value);
    assert(s == trim_end_char(built, '-'));
    assert forall|i: int| 0 <= i < s.len() implies {
        let c = #[trigger] s[i];
        ('a' <= c <= 'z') || ('0' <= c <= '9') || c == '-'
    } by {
        assert(s[i] == built[i]);
    }
    assert(all_ascii(s));
    assert forall|i: int| 0 <= i < s.len() - 1 implies !(#[trigger] s[i] == '-' && s[i + 1] == '-') by {
        assert(s[i] == built[i] && s[i + 1] == built[i + 1]);
    }
    if s.len() > 0 {
        assert(s[0] == built[0]);
    }
    // slugging the slug: it is its own trim and its own lower-case form, and builds to itself
    crate::text::lemma_trim_fixed(s);
    let low2 = trim_spec(s).map_values(|c: char| ascii_lower(c));
    assert(low2 =~= s);
    lemma_slug_build_fixed(s);
}

proof fn lemma_slug_build(cs: Seq<char>)
    ensures
        forall|i: int| 0 <= i < slug_build(cs).0.len() ==> {
            let c = #[trigger] slug_build(cs).0[i];
            ascii_alnum(c) || c == '-'
        },
        slug_build(cs).0.len() > 0 ==> slug_build(cs).0[0] != '-',
        slug_build(cs).1 <==> (slug_build(cs).0.len() > 0 && slug_build(cs).0.last() == '-'),
        forall|i: int|
            0 <= i < slug_build(cs).0.len() - 1 ==> !(#[trigger] slug_build(cs).0[i] == '-' && slug_build(cs).0[i
                + 1] == '-'),
        slug_build(cs).0.len() > 0 <==> exists|i: int| 0 <= i < cs.len() && ascii_alnum(#[trigger] cs[i]),
    decreases cs.len(),
{
    if cs.len() > 0 {
        lemma_slug_build(cs.drop_last());
        let (slug, sep) = slug_build(cs.drop_last());
        let out = slug_build(cs).0;
        assert forall|i: int| 0 <= i < out.len() implies {
            let c = #[trigger] out[i];
            ascii_alnum(c) || c == '-'
        } by {
            if i < slug.len() {
                assert(out[i] == slug[i]);
            }
        }
        if out.len() > 0 && slug.len() > 0 {
            assert(out[0] == slug[0]);
        }
        assert forall|i: int| 0 <= i < out.len() - 1 implies !(#[trigger] out[i] == '-' && out[i + 1] == '-') by {
            if i + 1 < slug.len() {
                assert(out[i] == slug[i] && out[i + 1] == slug[i + 1]);
            } else if i < slug.len() {
                assert(out[i] == slug[i]);
            }
        }
        let pre = cs.drop_last();
        if exists|i: int| 0 <= i < pre.len() && ascii_alnum(#[trigger] pre[i]) {
            let i = choose|i: int| 0 <= i < pre.len() && ascii_alnum(#[trigger] pre[i]);
            assert(cs[i] == pre[i]);
        }
        if exists|i: int| 0 <= i < cs.len() && ascii_alnum(#[trigger] cs[i]) {
            let i = choose|i: int| 0 <= i < cs.len() && ascii_alnum(#[trigger] cs[i]);
            if i < cs.len() - 1 {
                assert(pre[i] == cs[i]);
            }
        }
    }
}

/// An organization as created at `now` with the given id: its slug from the given slug, or
/// else from the name.
pub open spec fn organization_created(input: NewOrganization, id: Seq<char>, now: Timestamp, o: Organization) -> bool {
    &&& o.id@ == id
    &&& o.name == input.name
    &&& o.slug@ == slug_of(match input.slug {
        Some(s) => s@,
        None => input.name@,
    })
    &&& o.description == input.description
    &&& o.color == input.color
    &&& o.icon == input.icon
    &&& o.created_at == now
    &&& o.updated_at == now
    &&& o.archived_at is None
}

/// Create an organization at `now`: its name must not be blank; it gets a fresh random id.
pub fn new_organization(input: NewOrganization, now: Timestamp) -> (r: Result<Organization, CoreError>)
    ensures
        trim_spec(input.name@).len() == 0 ==> (r matches Err(CoreError::Validation(m)) && m@
            == "name cannot be empty"@),
        trim_spec(input.name@).len() > 0 ==> (r matches Ok(o) && organization_created(
            input,
            o.id@,
            now,
            o,
        ) && o.id@.len() == 36),
{
    require_name(input.name.as_str())?;
    let slug = match &input.slug {
        Some(s) => slugify(s.as_str()),
        None => slugify(input.name.as_str()),
    };
    Ok(
        Organization {
            id: crate::crypto::new_uuid(),
            name: input.name,
            slug,
            description: input.description,
            color: input.color,
            icon: input.icon,
            created_at: now,
            updated_at: now,
            archived_at: None,
        },
    )
}

/// What a patch does to an optional field: `Some(v)` sets it to `v`, `None` keeps it.
pub open spec fn patched<T>(p: Option<T>, current: T) -> T {
    match p {
        Some(v) => v,
        None => current,
    }
}

/// Apply a patch to an organization at `now`. A new name must not be blank; a new slug is
/// slugified; the update time becomes `now`.
pub fn apply_organization_patch(current: Organization, patch: OrganizationPatch, now: Timestamp) -> (r:
    Result<Organization, CoreError>)
    ensures
        (patch.name matches Some(n) && trim_spec(n@).len() == 0) ==> (r matches Err(
            CoreError::Validation(m),
        ) && m@ == "name cannot be empty"@),
        !(patch.name matches Some(n) && trim_spec(n@).len() == 0) ==> (r matches Ok(o) && {
            &&& o.id == current.id
            &&& o.name == patched(patch.name, current.name)
            &&& o.slug@ == match patch.slug {
                Some(s) => slug_of(s@),
                None => current.slug@,
            }
            &&& o.description == patched(patch.description, current.description)
            &&& o.color == patched(patch.color, current.color)
            &&& o.icon == patched(patch.icon, current.icon)
            &&& o.created_at == current.created_at
            &&& o.updated_at == now
            &&& o.archived_at == current.archived_at
        }),
{
    let mut o = current;
    match patch.name {
        Some(n) => {
            require_name(n.as_str())?;
            o.name = n;
        },
        None => {},
    }
    match patch.slug {
        Some(s) => {
            o.slug = slugify(s.as_str());
        },
        None => {},
    }
    match patch.description {
        Some(v) => {
            o.description = v;
        },
        None => {},
    }
    match patch.color {
        Some(v) => {
            o.color = v;
        },
        None => {},
    }
    match patch.icon {
        Some(v) => {
            o.icon = v;
        },
        None => {},
    }
    o.updated_at = now;
    Ok(o)
}

/// A project as created at `now` with the given id.
pub open spec fn project_created(input: NewProject, id: Seq<char>, now: Timestamp, p: Project) -> bool {
    &&& p.id@ == id
    &&& p.organization_id == input.organization_id
    &&& p.name == input.name
    &&& p.slug@ == slug_of(match input.slug {
        Some(s) => s@,
        None => input.name@,
    })
    &&& p.description == input.description
    &&& p.project_type == input.project_type
    &&& p.status == input.status
    &&& p.priority == input.priority
    &&& p.deadline == input.deadline
    &&& p.repo_url == input.repo_url
    &&& p.notes == input.notes
    &&& p.created_at == now
    &&& p.updated_at == now
    &&& p.archived_at is None
}

/// Create a project at `now`: its name must not be blank and its priority must be P1..P5; it
/// gets a fresh random id.
pub fn new_project(input: NewProject, now: Timestamp) -> (r: Result<Project, CoreError>)
    ensures
        trim_spec(input.name@).len() == 0 ==> (r matches Err(CoreError::Validation(m)) && m@
            == "name cannot be empty"@),
        trim_spec(input.name@).len() > 0 && !(1 <= input.priority <= 5) ==> (r matches Err(
            CoreError::Validation(m),
        ) && m@ == "priority must be between 1 and 5"@),
        trim_spec(input.name@).len() > 0 && 1 <= input.priority <= 5 ==> (r matches Ok(p)
            && project_created(input, p.id@, now, p) && p.id@.len() == 36),
{
    require_name(input.name.as_str())?;
    validate_priority(input.priority)?;
    let slug = match &input.slug {
        Some(s) => slugify(s.as_str()),
        None => slugify(input.name.as_str()),
    };
    Ok(
        Project {
            id: crate::crypto::new_uuid(),
            organization_id: input.organization_id,
            name: input.name,
            slug,
            description: input.description,
            project_type: input.project_type,
            status: input.status,
            priority: input.priority,
            deadline: input.deadline,
            repo_url: input.repo_url,
            notes: input.notes,
            created_at: now,
            updated_at: now,
            archived_at: None,
        },
    )
}

/// Whether a project patch would be refused, and with which message.
pub open spec fn project_patch_refusal(patch: ProjectPatch) -> Option<Seq<char>> {
    if patch.name matches Some(n) && trim_spec(n@).len() == 0 {
        Some("name cannot be empty"@)
    } else if patch.priority matches Some(v) && !(1 <= v <= 5) {
        Some("priority must be between 1 and 5"@)
    } else {
        None
    }
}

/// Apply a patch to a project at `now`. A new name must not be blank and a new priority must be
/// P1..P5; a new slug is slugified; the update time becomes `now`.
pub fn apply_project_patch(current: Project, patch: ProjectPatch, now: Timestamp) -> (r: Result<
    Project,
    CoreError,
>)
    ensures
        match project_patch_refusal(patch) {
            Some(m) => r matches Err(CoreError::Validation(e)) && e@ == m,
            None => r matches Ok(p) && {
                &&& p.id == current.id
                &&& p.organization_id == current.organization_id
                &&& p.name == patched(patch.name, current.name)
                &&& p.slug@ == match patch.slug {
                    Some(s) => slug_of(s@),
                    None => current.slug@,
                }
                &&& p.description == patched(patch.description, current.description)
                &&& p.project_type == patched(patch.project_type, current.project_type)
                &&& p.status == patched(patch.status, current.status)
                &&& p.priority == patched(patch.priority, current.priority)
                &&& p.deadline == patched(patch.deadline, current.deadline)
                &&& p.repo_url == patched(patch.repo_url, current.repo_url)
                &&& p.notes == patched(patch.notes, current.notes)
                &&& p.created_at == current.created_at
                &&& p.updated_at == now
                &&& p.archived_at == current.archived_at
            },
        },
{
    let mut p = current;
    match patch.name {
        Some(v) => {
            require_name(v.as_str())?;
            p.name = v;
        },
        None => {},
    }
    match patch.slug {
        Some(v) => {
            p.slug = slugify(v.as_str());
        },
        None => {},
    }
    match patch.description {
        Some(v) => {
            p.description = v;
        },
        None => {},
    }
    match patch.project_type {
        Some(v) => {
            p.project_type = v;
        },
        None => {},
    }
    match patch.status {
        Some(v) => {
            p.status = v;
        },
        None => {},
    }
    match patch.priority {
        Some(v) => {
            validate_priority(v)?;
            p.priority = v;
        },
        None => {},
    }
    match patch.deadline {
        Some(v) => {
            p.deadline = v;
        },
        None => {},
    }
    match patch.repo_url {
        Some(v) => {
            p.repo_url = v;
        },
        None => {},
    }
    match patch.notes {
        Some(v) => {
            p.notes = v;
        },
        None => {},
    }
    p.updated_at = now;
    Ok(p)
}

/// A task as created at `now` with the given id: started at `now` when created in progress,
/// never completed, not blocked, and with no calendar schedule or recurrence.
pub open spec fn task_created(input: NewTask, id: Seq<char>, now: Timestamp, t: Task) -> bool {
    &&& t.id@ == id
    &&& t.project_id == input.project_id
    &&& t.title == input.title
    &&& t.description == input.description
    &&& t.status == input.status
    &&& t.priority == input.priority
    &&& t.due_at == input.due_at
    &&& t.scheduled_at == input.scheduled_at
    &&& t.scheduled_start_at is None
    &&& t.scheduled_end_at is None
    &&& t.deadline_at is None
    &&& t.reminder_at is None
    &&& t.recurrence_rule is None
    &&& t.recurrence_anchor_at is None
    &&& t.recurrence_timezone is None
    &&& t.calendar_block_id is None
    &&& t.started_at == (if input.status == TaskStatus::InProgress {
        Some(now)
    } else {
        None
    })
    &&& t.completed_at is None
    &&& t.estimated_minutes == input.estimated_minutes
    &&& t.time_limit_minutes == input.time_limit_minutes
    &&& t.pinned == input.pinned
    &&& t.blocked_reason is None
    &&& t.tags == input.tags
    &&& t.created_at == now
    &&& t.updated_at == now
}

/// Create a task at `now`: its title must not be blank and its priority must be P1..P5; it
/// gets a fresh random id.
pub fn new_task(input: NewTask, now: Timestamp) -> (r: Result<Task, CoreError>)
    ensures
        trim_spec(input.title@).len() == 0 ==> (r matches Err(CoreError::Validation(m)) && m@
            == "name cannot be empty"@),
        trim_spec(input.title@).len() > 0 && !(1 <= input.priority <= 5) ==> (r matches Err(
            CoreError::Validation(m),
        ) && m@ == "priority must be between 1 and 5"@),
        trim_spec(input.title@).len() > 0 && 1 <= input.priority <= 5 ==> (r matches Ok(t)
            && task_created(input, t.id@, now, t) && t.id@.len() == 36),
{
    require_name(input.title.as_str())?;
    validate_priority(input.priority)?;
    let started_at = if input.status == TaskStatus::InProgress {
        Some(now)
    } else {
        None
    };
    Ok(
        Task {
            id: crate::crypto::new_uuid(),
            project_id: input.project_id,
            title: input.title,
            description: input.description,
            status: input.status,
            priority: input.priority,
            due_at: input.due_at,
            scheduled_at: input.scheduled_at,
            scheduled_start_at: None,
            scheduled_end_at: None,
            deadline_at: None,
            reminder_at: None,
            recurrence_rule: None,
            recurrence_anchor_at: None,
            recurrence_timezone: None,
            calendar_block_id: None,
            started_at,
            completed_at: None,
            estimated_minutes: input.estimated_minutes,
            time_limit_minutes: input.time_limit_minutes,
            pinned: input.pinned,
            blocked_reason: None,
            tags: input.tags,
            created_at: now,
            updated_at: now,
        },
    )
}

/// Whether a task patch would be refused, and with which message.
pub open spec fn task_patch_refusal(patch: TaskPatch) -> Option<Seq<char>> {
    if patch.title matches Some(n) && trim_spec(n@).len() == 0 {
        Some("name cannot be empty"@)
    } else if patch.priority matches Some(v) && !(1 <= v <= 5) {
        Some("priority must be between 1 and 5"@)
    } else {
        None
    }
}

/// Apply a patch to a task at `now`. A new title must not be blank and a new priority must be
/// P1..P5. Moving to in-progress sets the start time if it was unset; moving to done sets the
/// completion time if it was unset. The update time becomes `now`.
#[verifier::rlimit(60)]
pub fn apply_task_patch(current: Task, patch: TaskPatch, now: Timestamp) -> (r: Result<Task, CoreError>)
    ensures
        match task_patch_refusal(patch) {
            Some(m) => r matches Err(CoreError::Validation(e)) && e@ == m,
            None => r matches Ok(t) && {
                &&& t.id == current.id
                &&& t.project_id == current.project_id
                &&& t.title == patched(patch.title, current.title)
                &&& t.description == patched(patch.description, current.description)
                &&& t.status == patched(patch.status, current.status)
                &&& t.started_at == (if patch.status == Some(TaskStatus::InProgress)
                    && current.started_at is None {
                    Some(now)
                } else {
                    current.started_at
                })
                &&& t.completed_at == (if patch.status == Some(TaskStatus::Done)
                    && current.completed_at is None {
                    Some(now)
                } else {
                    current.completed_at
                })
                &&& t.priority == patched(patch.priority, current.priority)
                &&& t.due_at == patched(patch.due_at, current.due_at)
                &&& t.scheduled_at == patched(patch.scheduled_at, current.scheduled_at)
                &&& t.estimated_minutes == patched(patch.estimated_minutes, current.estimated_minutes)
                &&& t.time_limit_minutes == patched(patch.time_limit_minutes, current.time_limit_minutes)
                &&& t.pinned == patched(patch.pinned, current.pinned)
                &&& t.blocked_reason == patched(patch.blocked_reason, current.blocked_reason)
                &&& t.tags == patched(patch.tags, current.tags)
                &&& t.scheduled_start_at == current.scheduled_start_at
                &&& t.scheduled_end_at == current.scheduled_end_at
                &&& t.deadline_at == current.deadline_at
                &&& t.reminder_at == current.reminder_at
                &&& t.recurrence_rule == current.recurrence_rule
                &&& t.recurrence_anchor_at == current.recurrence_anchor_at
                &&& t.recurrence_timezone == current.recurrence_timezone
                &&& t.calendar_block_id == current.calendar_block_id
                &&& t.created_at == current.created_at
                &&& t.updated_at == now
            },
        },
{
    let mut t = current;
    match patch.title {
        Some(v) => {
            require_name(v.as_str())?;
            t.title = v;
        },
        None => {},
    }
    match patch.description {
        Some(v) => {
            t.description = v;
        },
        None => {},
    }
    match patch.status {
        Some(v) => {
            if v == TaskStatus::InProgress && t.started_at.is_none() {
                t.started_at = Some(now);
            }
            if v == TaskStatus::Done && t.completed_at.is_none() {
                t.completed_at = Some(now);
            }
            t.status = v;
        },
        None => {},
    }
    match patch.priority {
        Some(v) => {
            validate_priority(v)?;
            t.priority = v;
        },
        None => {},
    }
    match patch.due_at {
        Some(v) => {
            t.due_at = v;
        },
        None => {},
    }
    match patch.scheduled_at {
        Some(v) => {
            t.scheduled_at = v;
        },
        None => {},
    }
    match patch.estimated_minutes {
        Some(v) => {
            t.estimated_minutes = v;
        },
        None => {},
    }
    match patch.time_limit_minutes {
        Some(v) => {
            t.time_limit_minutes = v;
        },
        None => {},
    }
    match patch.pinned {
        Some(v) => {
            t.pinned = v;
        },
        None => {},
    }
    match patch.blocked_reason {
        Some(v) => {
            t.blocked_reason = v;
        },
        None => {},
    }
    match patch.tags {
        Some(v) => {
            t.tags = v;
        },
        None => {},
    }
    t.updated_at = now;
    Ok(t)
}

/// Move a task to `status` at `now`, replacing its blocked reason. Moving to in-progress sets
/// the start time if it was unset; moving to done always sets the completion time to `now`.
pub fn transition_task(current: Task, status: TaskStatus, blocked_reason: Option<String>, now: Timestamp) -> (t:
    Task)
    ensures
        t.id == current.id,
        t.status == status,
        t.blocked_reason == blocked_reason,
        t.updated_at == now,
        t.started_at == (if status == TaskStatus::InProgress && current.started_at is None {
            Some(now)
        } else {
            current.started_at
        }),
        t.completed_at == (if status == TaskStatus::Done {
            Some(now)
        } else {
            current.completed_at
        }),
        t.title == current.title,
        t.priority == current.priority,
        t.project_id == current.project_id,
        t.due_at == current.due_at,
        t.scheduled_at == current.scheduled_at,
        t.pinned == current.pinned,
        t.tags == current.tags,
        t.created_at == current.created_at,
{
    let mut t = current;
    t.status = status;
    t.updated_at = now;
    t.blocked_reason = blocked_reason;
    if status == TaskStatus::InProgress && t.started_at.is_none() {
        t.started_at = Some(now);
    }
    if status == TaskStatus::Done {
        t.completed_at = Some(now);
    }
    t
}

/// Law: a transition to done always records when it happened, and a start time once set is
/// never moved by a later transition.
pub proof fn lemma_transition_times(current: Task, status: TaskStatus, now: Timestamp, t: Task)
    requires
        t.status == status,
        t.started_at == (if status == TaskStatus::InProgress && current.started_at is None {
            Some(now)
        } else {
            current.started_at
        }),
        t.completed_at == (if status == TaskStatus::Done {
            Some(now)
        } else {
            current.completed_at
        }),
    ensures
        status == TaskStatus::Done ==> t.completed_at == Some(now),
        current.started_at is Some ==> t.started_at == current.started_at,
{
}

/// The organizations of the seed workspace: (name, slug, color, icon).
pub open spec fn seed_organization_rows() -> Seq<(Seq<char>, Seq<char>, Seq<char>, Seq<char>)> {
    seq![
        ("Black Candle"@, "black-candle"@, "#d85b52"@, "BC"@),
        ("Triarii"@, "triarii"@, "#d1a33b"@, "TR"@),
        ("In the National Interest"@, "in-the-national-interest"@, "#4d78d2"@, "NI"@),
        ("Personal"@, "personal"@, "#8a5ac2"@, "PS"@)
    ]
}

fn seed_organization(name: &str, slug: &str, color: &str, icon: &str) -> (o: NewOrganization)
    ensures
        o.name@ == name@,
        o.slug matches Some(s) && s@ == slug@,
        o.description is None,
        o.color matches Some(c) && c@ == color@,
        o.icon matches Some(i) && i@ == icon@,
{
    NewOrganization {
        name: to_string(name),
        slug: Some(to_string(slug)),
        description: None,
        color: Some(to_string(color)),
        icon: Some(to_string(icon)),
    }
}

/// The organizations the seed creates when their slug is not taken.
pub fn seed_organizations() -> (v: Vec<NewOrganization>)
    ensures
        v@.len() == 4,
        forall|i: int| 0 <= i < 4 ==> {
            let o = #[trigger] v@[i];
            let row = seed_organization_rows()[i];
            &&& o.name@ == row.0
            &&& o.slug matches Some(s) && s@ == row.1
            &&& o.description is None
            &&& o.color matches Some(c) && c@ == row.2
            &&& o.icon matches Some(x) && x@ == row.3
        },
{
    let mut v = Vec::new();
    v.push(seed_organization("Black Candle", "black-candle", "#d85b52", "BC"));
    v.push(seed_organization("Triarii", "triarii", "#d1a33b", "TR"));
    v.push(
        seed_organization("In the National Interest", "in-the-national-interest", "#4d78d2", "NI"),
    );
    v.push(seed_organization("Personal", "personal", "#8a5ac2", "PS"));
    v
}

/// The project the seed creates under the `personal` organization.
pub fn seed_project(organization_id: String) -> (p: NewProject)
    ensures
        p.organization_id == organization_id,
        p.name@ == "OpenMgmt"@,
        p.slug matches Some(s) && s@ == "openmgmt"@,
        p.description matches Some(d) && d@ == "Local-first project and task operations console."@,
        p.project_type == ProjectType::Software,
        p.status == ProjectStatus::Active,
        p.priority == 5,
        p.deadline is None,
        p.repo_url matches Some(u) && u@ == "https://github.com/LaneBucher/openmgmt"@,
        p.notes is None,
{
    NewProject {
        organization_id,
        name: to_string("OpenMgmt"),
        slug: Some(to_string("openmgmt")),
        description: Some(to_string("Local-first project and task operations console.")),
        project_type: ProjectType::Software,
        status: ProjectStatus::Active,
        priority: 5,
        deadline: None,
        repo_url: Some(to_string("https://github.com/LaneBucher/openmgmt")),
        notes: None,
    }
}

/// The seed tasks: title, status, priority, due and scheduled times relative to `now` (in
/// hours), pinned, and the reason of a blocked one.
pub open spec fn seed_task_rows() -> Seq<(Seq<char>, TaskStatus, i32, Option<int>, Option<int>, bool, Option<Seq<char>>)> {
    seq![
        ("Review the MVP on the TV board"@, TaskStatus::InProgress, 5i32, Some(2int), Some(0int), true, None),
        ("Document local backup workflow"@, TaskStatus::Ready, 3i32, Some(20int), None, false, None),
        ("Resolve overdue launch decision"@, TaskStatus::Ready, 4i32, Some(-3int), None, false, None),
        ("Confirm external dependency"@, TaskStatus::Blocked, 4i32, Some(8int), None, false, Some("Waiting for confirmation"@)),
        ("Plan the afternoon review"@, TaskStatus::Scheduled, 2i32, Some(30int), Some(4int), false, None),
        ("Capture launch notes"@, TaskStatus::Inbox, 2i32, None, None, false, None)
    ]
}

/// The time `hours` hours from `now`.
pub open spec fn hours_from(now: Timestamp, hours: Option<int>) -> Option<int> {
    match hours {
        Some(h) => Some(now + h * NANOS_PER_HOUR),
        None => None,
    }
}

/// The instants the seed needs fit in an `i64`.
pub open spec fn seed_time_fits(now: Timestamp) -> bool {
    i64::MIN + 3 * NANOS_PER_HOUR <= now <= i64::MAX - 30 * NANOS_PER_HOUR
}

fn seed_task(
    project_id: &String,
    title: &str,
    status: TaskStatus,
    priority: i32,
    due_at: Option<Timestamp>,
    scheduled_at: Option<Timestamp>,
    pinned: bool,
) -> (t: NewTask)
    ensures
        t.project_id == *project_id,
        t.title@ == title@,
        t.description is None,
        t.status == status,
        t.priority == priority,
        t.due_at == due_at,
        t.scheduled_at == scheduled_at,
        t.estimated_minutes == Some(30i32),
        t.time_limit_minutes == Some(45i32),
        t.pinned == pinned,
        t.tags@.len() == 1 && t.tags@[0]@ == "seed"@,
{
    let mut tags: Vec<String> = Vec::new();
    tags.push(to_string("seed"));
    NewTask {
        project_id: project_id.clone(),
        title: to_string(title),
        description: None,
        status,
        priority,
        due_at,
        scheduled_at,
        estimated_minutes: Some(30),
        time_limit_minutes: Some(45),
        pinned,
        tags,
    }
}

/// The tasks the seed creates (when the project has none of that title), each with the reason
/// it is then blocked for, if any: 30-minute estimates, 45-minute limits, tagged `seed`.
pub fn seed_tasks(project_id: String, now: Timestamp) -> (v: Vec<(NewTask, Option<String>)>)
    requires
        seed_time_fits(now),
    ensures
        v@.len() == 6,
        forall|i: int| 0 <= i < 6 ==> {
            let (t, reason) = #[trigger] v@[i];
            let row = seed_task_rows()[i];
            &&& t.project_id == project_id
            &&& t.title@ == row.0
            &&& t.description is None
            &&& t.status == row.1
            &&& t.priority == row.2
            &&& match t.due_at {
                Some(d) => hours_from(now, row.3) == Some(d as int),
                None => row.3 is None,
            }
            &&& match t.scheduled_at {
                Some(d) => hours_from(now, row.4) == Some(d as int),
                None => row.4 is None,
            }
            &&& t.estimated_minutes == Some(30i32)
            &&& t.time_limit_minutes == Some(45i32)
            &&& t.pinned == row.5
            &&& t.tags@.len() == 1 && t.tags@[0]@ == "seed"@
            &&& match reason {
                Some(r) => row.6 == Some(r@),
                None => row.6 is None,
            }
        },
{
    let h = NANOS_PER_HOUR;
    let mut v = Vec::new();
    v.push(
        (
            seed_task(&project_id, "Review the MVP on the TV board", TaskStatus::InProgress, 5, Some(now + 2 * h), Some(now), true),
            None,
        ),
    );
    v.push(
        (
            seed_task(&project_id, "Document local backup workflow", TaskStatus::Ready, 3, Some(now + 20 * h), None, false),
            None,
        ),
    );
    v.push(
        (
            seed_task(&project_id, "Resolve overdue launch decision", TaskStatus::Ready, 4, Some(now - 3 * h), None, false),
            None,
        ),
    );
    v.push(
        (
            seed_task(&project_id, "Confirm external dependency", TaskStatus::Blocked, 4, Some(now + 8 * h), None, false),
            Some(to_string("Waiting for confirmation")),
        ),
    );
    v.push(
        (
            seed_task(&project_id, "Plan the afternoon review", TaskStatus::Scheduled, 2, Some(now + 30 * h), Some(now + 4 * h), false),
            None,
        ),
    );
    v.push(
        (
            seed_task(&project_id, "Capture launch notes", TaskStatus::Inbox, 2, None, None, false),
            None,
        ),
    );
    v
}

} // verus!
