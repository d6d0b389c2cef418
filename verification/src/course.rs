//! The course catalog: educators' profiles, and courses with their sections.

use crate::account::{account_text, query_target, AccountId, MAX_ACCOUNT_BYTES};
use crate::fields::{
    bool_field, field_account, field_bool, field_text, field_texts, field_u32, field_u64,
    lemma_fields_read_back, lemma_texts_read_back, read_account, read_bool, read_text,
    read_texts, read_u32, read_u64, text_views, texts_field, texts_fit, u32_field, u64_field,
    write_bool, write_texts,
};
use crate::ident::{decimal_string, decimal_text, joined, joined_text, record_id, record_id_text};
use crate::ledger::LedgerError;
use crate::store::{store_pair, store_pair_opened, RecordStore};
use crate::table::{
    lemma_key_within_record, ordered_values, storable, table_check, table_get, table_has,
    chosen, table_list, table_ok, table_put, table_view, views_of, Choice, Record,
};
use crate::wire::{
    copy_bytes, field_views, lemma_pack_round_trip, pack, packable, packed, string_bytes,
    unpack, unpacked,
};
use vstd::bytes::*;
use vstd::prelude::*;
use vstd::string::*;
use vstd::utf8::*;

verus! {

/// The most bytes a stored course may take.
pub const MAX_COURSE_BYTES: usize = 8192;

/// The most bytes a stored educator profile may take.
pub const MAX_EDUCATOR_BYTES: usize = 2048;

/// One section of a course.
#[derive(Debug)]
pub struct CourseSection {
    pub id: String,
    pub title: String,
    pub content: String,
    pub order: u32,
}

/// A course.
#[derive(Debug)]
pub struct Course {
    pub id: String,
    pub title: String,
    pub description: String,
    pub educator_id: AccountId,
    pub sections: Vec<CourseSection>,
    pub created_at: u64,
    pub updated_at: u64,
    pub published: bool,
    pub token_reward: u64,
}

/// The profile of an educator.
#[derive(Debug)]
pub struct EducatorProfile {
    pub principal: AccountId,
    pub name: String,
    pub bio: String,
    pub expertise: Vec<String>,
    pub created_at: u64,
    pub updated_at: u64,
}

/// A section as a mathematical value.
pub struct CourseSectionView {
    pub id: Seq<char>,
    pub title: Seq<char>,
    pub content: Seq<char>,
    pub order: u32,
}

/// A course as a mathematical value.
pub struct CourseView {
    pub id: Seq<char>,
    pub title: Seq<char>,
    pub description: Seq<char>,
    pub educator_id: Seq<u8>,
    pub sections: Seq<CourseSectionView>,
    pub created_at: u64,
    pub updated_at: u64,
    pub published: bool,
    pub token_reward: u64,
}

/// An educator's profile as a mathematical value.
pub struct EducatorProfileView {
    pub principal: Seq<u8>,
    pub name: Seq<char>,
    pub bio: Seq<char>,
    pub expertise: Seq<Seq<char>>,
    pub created_at: u64,
    pub updated_at: u64,
}

impl View for CourseSection {
    type V = CourseSectionView;

    open spec fn view(&self) -> CourseSectionView {
        CourseSectionView {
            id: self.id@,
            title: self.title@,
            content: self.content@,
            order: self.order,
        }
    }
}

impl View for Course {
    type V = CourseView;

    open spec fn view(&self) -> CourseView {
        CourseView {
            id: self.id@,
            title: self.title@,
            description: self.description@,
            educator_id: self.educator_id@,
            sections: views_of(self.sections@),
            created_at: self.created_at,
            updated_at: self.updated_at,
            published: self.published,
            token_reward: self.token_reward,
        }
    }
}

impl View for EducatorProfile {
    type V = EducatorProfileView;

    open spec fn view(&self) -> EducatorProfileView {
        EducatorProfileView {
            principal: self.principal@,
            name: self.name@,
            bio: self.bio@,
            expertise: text_views(self.expertise@),
            created_at: self.created_at,
            updated_at: self.updated_at,
        }
    }
}

/// The fields of a section.
pub open spec fn section_fields(section: CourseSectionView) -> Seq<Seq<u8>> {
    seq![
        encode_utf8(section.id),
        encode_utf8(section.title),
        encode_utf8(section.content),
        u32_field(section.order),
    ]
}

/// The section that a list of fields stands for, if any.
pub open spec fn section_of_fields(fields: Seq<Seq<u8>>) -> Option<CourseSectionView> {
    if fields.len() == 4 && field_text(fields[0]) is Some && field_text(fields[1]) is Some
        && field_text(fields[2]) is Some && field_u32(fields[3]) is Some {
        Some(
            CourseSectionView {
                id: field_text(fields[0])->0,
                title: field_text(fields[1])->0,
                content: field_text(fields[2])->0,
                order: field_u32(fields[3])->0,
            },
        )
    } else {
        None
    }
}

/// The section that a byte string packs, if any.
pub open spec fn part_section(part: Seq<u8>) -> Option<CourseSectionView> {
    match unpacked(part) {
        Some(fields) => section_of_fields(fields),
        None => None,
    }
}

/// The packed form of each section of a list.
pub open spec fn sections_parts(sections: Seq<CourseSectionView>) -> Seq<Seq<u8>> {
    Seq::new(sections.len(), |i: int| packed(section_fields(sections[i])))
}

/// Whether a list of sections can be made a field.
pub open spec fn sections_fit(sections: Seq<CourseSectionView>) -> bool {
    &&& forall|i: int|
        0 <= i < sections.len() ==> packable(section_fields(#[trigger] sections[i]))
    &&& packable(sections_parts(sections))
}

/// The field of a list of sections: the packed sections, packed.
pub open spec fn sections_field(sections: Seq<CourseSectionView>) -> Seq<u8> {
    packed(sections_parts(sections))
}

/// Whether every byte string of a list packs a section.
pub open spec fn all_sections(parts: Seq<Seq<u8>>) -> bool {
    forall|i: int| 0 <= i < parts.len() ==> part_section(#[trigger] parts[i]) is Some
}

/// The list of sections a field stands for, if it stands for one.
pub open spec fn field_sections(field: Seq<u8>) -> Option<Seq<CourseSectionView>> {
    match unpacked(field) {
        Some(parts) => if all_sections(parts) {
            Some(Seq::new(parts.len(), |i: int| part_section(parts[i])->0))
        } else {
            None
        },
        None => None,
    }
}

/// The field of a list of sections reads back as the list.
pub proof fn lemma_sections_read_back(sections: Seq<CourseSectionView>)
    requires
        sections_fit(sections),
    ensures
        field_sections(sections_field(sections)) == Some(sections),
{
    lemma_fields_read_back();
    let parts = sections_parts(sections);
    lemma_pack_round_trip(parts);
    assert forall|i: int| 0 <= i < parts.len() implies part_section(#[trigger] parts[i]) == Some(
        sections[i],
    ) by {
        lemma_pack_round_trip(section_fields(sections[i]));
    }
    assert(Seq::new(parts.len(), |i: int| part_section(parts[i])->0) =~= sections);
}

impl CourseSection {
    /// The packed form of this section; `None` if a text is too long.
    fn to_part(&self) -> (part: Option<Vec<u8>>)
        ensures
            part is Some == packable(section_fields(self@)),
            part is Some ==> part->0@ == packed(section_fields(self@)),
    {
        let mut fields: Vec<Vec<u8>> = Vec::new();
        fields.push(string_bytes(&self.id));
        fields.push(string_bytes(&self.title));
        fields.push(string_bytes(&self.content));
        fields.push(u32_to_le_bytes(self.order));
        proof {
            assert(field_views(fields@) =~= section_fields(self@));
        }
        pack(&fields)
    }

    /// Reads a packed section back.
    fn from_part(part: &Vec<u8>) -> (section: Option<CourseSection>)
        ensures
            section is Some == part_section(part@) is Some,
            section is Some ==> section->0@ == part_section(part@)->0,
    {
        let fields = match unpack(part) {
            Some(fields) => fields,
            None => {
                return None;
            },
        };
        if fields.len() != 4 {
            return None;
        }
        let id = read_text(&fields[0]);
        let title = read_text(&fields[1]);
        let content = read_text(&fields[2]);
        let order = read_u32(&fields[3]);
        match (id, title, content, order) {
            (Some(id), Some(title), Some(content), Some(order)) => Some(
                CourseSection { id, title, content, order },
            ),
            _ => None,
        }
    }
}

/// Makes the field of a list of sections; `None` if a text is too long.
fn write_sections(sections: &Vec<CourseSection>) -> (field: Option<Vec<u8>>)
    ensures
        field is Some == sections_fit(views_of(sections@)),
        field is Some ==> field->0@ == sections_field(views_of(sections@)),
{
    let ghost views = views_of(sections@);
    let mut parts: Vec<Vec<u8>> = Vec::new();
    let mut i: usize = 0;
    while i < sections.len()
        invariant
            views == views_of(sections@),
            i <= sections.len(),
            parts.len() == i,
            forall|j: int| 0 <= j < i ==> packable(section_fields(#[trigger] views[j])),
            forall|j: int| 0 <= j < i ==> (#[trigger] parts@[j])@ == packed(section_fields(views[j])),
        decreases sections.len() - i,
    {
        match sections[i].to_part() {
            Some(part) => {
                parts.push(part);
            },
            None => {
                proof {
                    assert(!packable(section_fields(views[i as int])));
                }
                return None;
            },
        }
        i += 1;
    }
    proof {
        assert(field_views(parts@) =~= sections_parts(views));
    }
    pack(&parts)
}

/// Reads a field as a list of sections.
fn read_sections(field: &Vec<u8>) -> (sections: Option<Vec<CourseSection>>)
    ensures
        sections is Some == field_sections(field@) is Some,
        sections is Some ==> views_of(sections->0@) == field_sections(field@)->0,
{
    let parts = match unpack(field) {
        Some(parts) => parts,
        None => {
            return None;
        },
    };
    let ghost views = field_views(parts@);
    let mut sections: Vec<CourseSection> = Vec::new();
    let mut i: usize = 0;
    while i < parts.len()
        invariant
            views == field_views(parts@),
            unpacked(field@) == Some(views),
            i <= parts.len(),
            sections.len() == i,
            forall|j: int| 0 <= j < i ==> part_section(#[trigger] views[j]) is Some,
            forall|j: int| 0 <= j < i ==> (#[trigger] sections@[j])@ == part_section(views[j])->0,
        decreases parts.len() - i,
    {
        match CourseSection::from_part(&parts[i]) {
            Some(section) => {
                sections.push(section);
            },
            None => {
                proof {
                    assert(part_section(views[i as int]) is None);
                }
                return None;
            },
        }
        i += 1;
    }
    proof {
        assert(all_sections(views));
        assert(views_of(sections@) =~= field_sections(field@)->0);
    }
    Some(sections)
}

impl Record for Course {
    open spec fn limit() -> nat {
        MAX_COURSE_BYTES as nat
    }

    open spec fn valid(value: CourseView) -> bool {
        value.educator_id.len() <= MAX_ACCOUNT_BYTES && sections_fit(value.sections)
    }

    open spec fn fields_of(value: CourseView) -> Seq<Seq<u8>> {
        seq![
            encode_utf8(value.id),
            encode_utf8(value.title),
            encode_utf8(value.description),
            value.educator_id,
            sections_field(value.sections),
            u64_field(value.created_at),
            u64_field(value.updated_at),
            bool_field(value.published),
            u64_field(value.token_reward),
        ]
    }

    open spec fn of_fields(fields: Seq<Seq<u8>>) -> Option<CourseView> {
        if fields.len() == 9 && field_text(fields[0]) is Some && field_text(fields[1]) is Some
            && field_text(fields[2]) is Some && field_account(fields[3]) is Some
            && field_sections(fields[4]) is Some && field_u64(fields[5]) is Some && field_u64(
            fields[6],
        ) is Some && field_bool(fields[7]) is Some && field_u64(fields[8]) is Some {
            Some(
                CourseView {
                    id: field_text(fields[0])->0,
                    title: field_text(fields[1])->0,
                    description: field_text(fields[2])->0,
                    educator_id: field_account(fields[3])->0,
                    sections: field_sections(fields[4])->0,
                    created_at: field_u64(fields[5])->0,
                    updated_at: field_u64(fields[6])->0,
                    published: field_bool(fields[7])->0,
                    token_reward: field_u64(fields[8])->0,
                },
            )
        } else {
            None
        }
    }

    proof fn lemma_fields_read_back(value: CourseView) {
        lemma_fields_read_back();
        lemma_sections_read_back(value.sections);
    }

    fn size_limit() -> (limit: usize) {
        MAX_COURSE_BYTES
    }

    fn to_fields(&self) -> (fields: Option<Vec<Vec<u8>>>) {
        let sections = match write_sections(&self.sections) {
            Some(sections) => sections,
            None => {
                return None;
            },
        };
        let mut fields: Vec<Vec<u8>> = Vec::new();
        fields.push(string_bytes(&self.id));
        fields.push(string_bytes(&self.title));
        fields.push(string_bytes(&self.description));
        fields.push(copy_bytes(self.educator_id.as_bytes()));
        fields.push(sections);
        fields.push(u64_to_le_bytes(self.created_at));
        fields.push(u64_to_le_bytes(self.updated_at));
        fields.push(write_bool(self.published));
        fields.push(u64_to_le_bytes(self.token_reward));
        proof {
            assert(field_views(fields@) =~= Self::fields_of(self@));
        }
        Some(fields)
    }

    fn from_fields(fields: &Vec<Vec<u8>>) -> (value: Option<Course>) {
        if fields.len() != 9 {
            return None;
        }
        let id = read_text(&fields[0]);
        let title = read_text(&fields[1]);
        let description = read_text(&fields[2]);
        let educator_id = read_account(&fields[3]);
        let sections = read_sections(&fields[4]);
        let created_at = read_u64(&fields[5]);
        let updated_at = read_u64(&fields[6]);
        let published = read_bool(&fields[7]);
        let token_reward = read_u64(&fields[8]);
        match (
            id,
            title,
            description,
            educator_id,
            sections,
            created_at,
            updated_at,
            published,
            token_reward,
        ) {
            (
                Some(id),
                Some(title),
                Some(description),
                Some(educator_id),
                Some(sections),
                Some(created_at),
                Some(updated_at),
                Some(published),
                Some(token_reward),
            ) => Some(
                Course {
                    id,
                    title,
                    description,
                    educator_id,
                    sections,
                    created_at,
                    updated_at,
                    published,
                    token_reward,
                },
            ),
            _ => None,
        }
    }
}

impl Record for EducatorProfile {
    open spec fn limit() -> nat {
        MAX_EDUCATOR_BYTES as nat
    }

    open spec fn valid(value: EducatorProfileView) -> bool {
        value.principal.len() <= MAX_ACCOUNT_BYTES && texts_fit(value.expertise)
    }

    open spec fn fields_of(value: EducatorProfileView) -> Seq<Seq<u8>> {
        seq![
            value.principal,
            encode_utf8(value.name),
            encode_utf8(value.bio),
            texts_field(value.expertise),
            u64_field(value.created_at),
            u64_field(value.updated_at),
        ]
    }

    open spec fn of_fields(fields: Seq<Seq<u8>>) -> Option<EducatorProfileView> {
        if fields.len() == 6 && field_account(fields[0]) is Some && field_text(fields[1]) is Some
            && field_text(fields[2]) is Some && field_texts(fields[3]) is Some && field_u64(
            fields[4],
        ) is Some && field_u64(fields[5]) is Some {
            Some(
                EducatorProfileView {
                    principal: field_account(fields[0])->0,
                    name: field_text(fields[1])->0,
                    bio: field_text(fields[2])->0,
                    expertise: field_texts(fields[3])->0,
                    created_at: field_u64(fields[4])->0,
                    updated_at: field_u64(fields[5])->0,
                },
            )
        } else {
            None
        }
    }

    proof fn lemma_fields_read_back(value: EducatorProfileView) {
        lemma_fields_read_back();
        lemma_texts_read_back(value.expertise);
    }

    fn size_limit() -> (limit: usize) {
        MAX_EDUCATOR_BYTES
    }

    fn to_fields(&self) -> (fields: Option<Vec<Vec<u8>>>) {
        let expertise = match write_texts(&self.expertise) {
            Some(expertise) => expertise,
            None => {
                return None;
            },
        };
        let mut fields: Vec<Vec<u8>> = Vec::new();
        fields.push(copy_bytes(self.principal.as_bytes()));
        fields.push(string_bytes(&self.name));
        fields.push(string_bytes(&self.bio));
        fields.push(expertise);
        fields.push(u64_to_le_bytes(self.created_at));
        fields.push(u64_to_le_bytes(self.updated_at));
        proof {
            assert(field_views(fields@) =~= Self::fields_of(self@));
        }
        Some(fields)
    }

    fn from_fields(fields: &Vec<Vec<u8>>) -> (value: Option<EducatorProfile>) {
        if fields.len() != 6 {
            return None;
        }
        let principal = read_account(&fields[0]);
        let name = read_text(&fields[1]);
        let bio = read_text(&fields[2]);
        let expertise = read_texts(&fields[3]);
        let created_at = read_u64(&fields[4]);
        let updated_at = read_u64(&fields[5]);
        match (principal, name, bio, expertise, created_at, updated_at) {
            (
                Some(principal),
                Some(name),
                Some(bio),
                Some(expertise),
                Some(created_at),
                Some(updated_at),
            ) => Some(EducatorProfile { principal, name, bio, expertise, created_at, updated_at }),
            _ => None,
        }
    }
}

/// Why an operation on the catalog was refused.
#[derive(Clone, Copy, Debug, PartialEq, Eq, Structural)]
pub enum CatalogError {
    /// The educator has no profile.
    ProfileNotFound,
    /// There is no course with the given id.
    CourseNotFound,
    /// The caller is not the creator of the course to add a section to.
    SectionsByCreatorOnly,
    /// The caller is not the creator of the course to publish.
    PublishingByCreatorOnly,
    /// The course to publish has no section.
    NoSections,
    /// The record is too large to be stored.
    RecordTooLarge,
}

/// What an error says to the caller.
pub open spec fn catalog_error_text(error: CatalogError) -> Seq<char> {
    match error {
        CatalogError::ProfileNotFound => "Educator profile not found"@,
        CatalogError::CourseNotFound => "Course not found"@,
        CatalogError::SectionsByCreatorOnly => "Only the course creator can add sections"@,
        CatalogError::PublishingByCreatorOnly => "Only the course creator can publish"@,
        CatalogError::NoSections => "Course must have at least one section"@,
        CatalogError::RecordTooLarge => "Record too large"@,
    }
}

/// The class of an error.
pub open spec fn catalog_error_class(error: CatalogError) -> LedgerError {
    match error {
        CatalogError::ProfileNotFound => LedgerError::RecordNotFound,
        CatalogError::CourseNotFound => LedgerError::RecordNotFound,
        CatalogError::SectionsByCreatorOnly => LedgerError::ValidationError,
        CatalogError::PublishingByCreatorOnly => LedgerError::ValidationError,
        CatalogError::NoSections => LedgerError::ValidationError,
        CatalogError::RecordTooLarge => LedgerError::ValidationError,
    }
}

impl CatalogError {
    /// The class of the error.
    pub fn class(&self) -> (class: LedgerError)
        ensures
            class == catalog_error_class(*self),
    {
        match self {
            CatalogError::ProfileNotFound => LedgerError::RecordNotFound,
            CatalogError::CourseNotFound => LedgerError::RecordNotFound,
            CatalogError::SectionsByCreatorOnly => LedgerError::ValidationError,
            CatalogError::PublishingByCreatorOnly => LedgerError::ValidationError,
            CatalogError::NoSections => LedgerError::ValidationError,
            CatalogError::RecordTooLarge => LedgerError::ValidationError,
        }
    }

    /// What the error says to the caller.
    pub fn message(&self) -> (text: String)
        ensures
            text@ == catalog_error_text(*self),
    {
        match self {
            CatalogError::ProfileNotFound => String::from_str("Educator profile not found"),
            CatalogError::CourseNotFound => String::from_str("Course not found"),
            CatalogError::SectionsByCreatorOnly => String::from_str(
                "Only the course creator can add sections",
            ),
            CatalogError::PublishingByCreatorOnly => String::from_str(
                "Only the course creator can publish",
            ),
            CatalogError::NoSections => String::from_str("Course must have at least one section"),
            CatalogError::RecordTooLarge => String::from_str("Record too large"),
        }
    }
}

/// The catalog as a mathematical value: the courses by the UTF-8 bytes of
/// their ids, and the profiles by the bytes of their educators' identities.
pub struct CatalogView {
    pub courses: Map<Seq<u8>, CourseView>,
    pub educators: Map<Seq<u8>, EducatorProfileView>,
}

/// The courses and the educators' profiles, in two durable stores.
pub struct Catalog {
    courses: RecordStore,
    educators: RecordStore,
}

impl View for Catalog {
    type V = CatalogView;

    closed spec fn view(&self) -> CatalogView {
        CatalogView {
            courses: table_view::<Course>(self.courses),
            educators: table_view::<EducatorProfile>(self.educators),
        }
    }
}

impl Catalog {
    /// Every stored record reads back. This holds of a new catalog and of
    /// one that was opened, and every operation keeps it.
    pub closed spec fn well_formed(&self) -> bool {
        table_ok::<Course>(self.courses) && table_ok::<EducatorProfile>(self.educators)
    }

    /// The catalog that the memory holds, after a restart: empty if the
    /// memory holds none, and `None` if a record in it does not read back.
    pub fn open() -> (catalog: Option<Catalog>)
        ensures
            catalog is Some ==> catalog->0.well_formed(),
    {
        let (courses, educators) = store_pair_opened();
        Catalog::from_stores(courses, educators)
    }

    /// Reads every stored record and tells whether each reads back.
    pub fn audit(&self) -> (sound: bool)
        ensures
            sound == self.well_formed(),
    {
        table_check::<Course>(&self.courses) && table_check::<EducatorProfile>(&self.educators)
    }

    /// The catalog that two stores hold: its courses and its profiles are
    /// what the stores' records read back as. `None` if a record of one of
    /// them does not read back as what that store is for.
    pub fn from_stores(courses: RecordStore, educators: RecordStore) -> (catalog: Option<Catalog>)
        ensures
            catalog is Some == (table_ok::<Course>(courses) && table_ok::<EducatorProfile>(
                educators,
            )),
            catalog is Some ==> catalog->0.well_formed(),
            catalog is Some ==> catalog->0@ == (CatalogView {
                courses: table_view::<Course>(courses),
                educators: table_view::<EducatorProfile>(educators),
            }),
    {
        let catalog = Catalog { courses, educators };
        if catalog.audit() {
            Some(catalog)
        } else {
            None
        }
    }

    /// An empty catalog, in place of whatever the memory held.
    pub fn new() -> (catalog: Catalog)
        ensures
            catalog.well_formed(),
            catalog@.courses == Map::<Seq<u8>, CourseView>::empty(),
            catalog@.educators == Map::<Seq<u8>, EducatorProfileView>::empty(),
    {
        let (courses, educators) = store_pair();
        let catalog = Catalog { courses, educators };
        proof {
            assert(catalog@.courses =~= Map::<Seq<u8>, CourseView>::empty());
            assert(catalog@.educators =~= Map::<Seq<u8>, EducatorProfileView>::empty());
        }
        catalog
    }
}

/// The profile that `caller` makes at time `now`.
pub open spec fn made_educator_profile(
    caller: Seq<u8>,
    now: u64,
    name: Seq<char>,
    bio: Seq<char>,
    expertise: Seq<Seq<char>>,
) -> EducatorProfileView {
    EducatorProfileView { principal: caller, name, bio, expertise, created_at: now, updated_at: now }
}

/// Makes the caller's profile, in place of the one the caller had.
pub fn create_educator_profile(
    catalog: &mut Catalog,
    caller: &AccountId,
    now: u64,
    name: String,
    bio: String,
    expertise: Vec<String>,
) -> (result: Result<EducatorProfile, CatalogError>)
    requires
        old(catalog).well_formed(),
    ensures
        final(catalog).well_formed(),
        final(catalog)@.courses == old(catalog)@.courses,
        ({
            let profile = made_educator_profile(caller@, now, name@, bio@, text_views(expertise@));
            match result {
                Ok(made) => {
                    &&& storable::<EducatorProfile>(profile)
                    &&& made@ == profile
                    &&& final(catalog)@.educators == old(catalog)@.educators.insert(caller@, profile)
                },
                Err(error) => {
                    &&& !storable::<EducatorProfile>(profile)
                    &&& error == CatalogError::RecordTooLarge
                    &&& final(catalog)@ == old(catalog)@
                },
            }
        }),
{
    let profile = EducatorProfile {
        principal: caller.clone(),
        name,
        bio,
        expertise,
        created_at: now,
        updated_at: now,
    };
    let key = copy_bytes(caller.as_bytes());
    if table_put::<EducatorProfile>(&mut catalog.educators, key, &profile) {
        Ok(profile)
    } else {
        Err(CatalogError::RecordTooLarge)
    }
}

/// The profile of `principal`, or of `caller` if no educator is named.
pub fn get_educator_profile(
    catalog: &Catalog,
    caller: &AccountId,
    principal: Option<AccountId>,
) -> (result: Result<EducatorProfile, CatalogError>)
    requires
        catalog.well_formed(),
    ensures
        ({
            let key = query_target(caller@, principal);
            match result {
                Ok(profile) => catalog@.educators.contains_key(key) && profile@
                    == catalog@.educators[key],
                Err(error) => !catalog@.educators.contains_key(key) && error
                    == CatalogError::ProfileNotFound,
            }
        }),
{
    let found = match principal {
        Some(account) => table_get::<EducatorProfile>(&catalog.educators, account.as_bytes()),
        None => table_get::<EducatorProfile>(&catalog.educators, caller.as_bytes()),
    };
    match found {
        Some(profile) => Ok(profile),
        None => Err(CatalogError::ProfileNotFound),
    }
}

/// The course that `caller`, whose textual identity is `caller_text`,
/// creates at time `now`: unpublished and without sections.
pub open spec fn created_course(
    caller: Seq<u8>,
    caller_text: Seq<char>,
    now: u64,
    title: Seq<char>,
    description: Seq<char>,
    token_reward: u64,
) -> CourseView {
    CourseView {
        id: record_id_text(caller_text, now),
        title,
        description,
        educator_id: caller,
        sections: Seq::empty(),
        created_at: now,
        updated_at: now,
        published: false,
        token_reward,
    }
}

/// What creating a course leads to: the course stored, or the reason for
/// refusing and the catalog unchanged.
pub open spec fn course_created(
    before: CatalogView,
    caller: Seq<u8>,
    caller_text: Seq<char>,
    now: u64,
    title: Seq<char>,
    description: Seq<char>,
    token_reward: u64,
    result: Result<Course, CatalogError>,
    after: CatalogView,
) -> bool {
    let course = created_course(caller, caller_text, now, title, description, token_reward);
    match result {
        Ok(created) => {
            &&& before.educators.contains_key(caller)
            &&& storable::<Course>(course)
            &&& created@ == course
            &&& after.courses == before.courses.insert(encode_utf8(course.id), course)
            &&& after.educators == before.educators
        },
        Err(error) => {
            &&& after == before
            &&& error == if !before.educators.contains_key(caller) {
                CatalogError::ProfileNotFound
            } else {
                CatalogError::RecordTooLarge
            }
            &&& before.educators.contains_key(caller) ==> !storable::<Course>(course)
        },
    }
}

/// Creates a course of the caller, who must have a profile and whose textual
/// identity is `caller_text`, and stores it under an id made of that text and
/// the time, in place of a course already there with that id.
pub fn create_course_as(
    catalog: &mut Catalog,
    caller: &AccountId,
    caller_text: &str,
    now: u64,
    title: String,
    description: String,
    token_reward: u64,
) -> (result: Result<Course, CatalogError>)
    requires
        old(catalog).well_formed(),
    ensures
        final(catalog).well_formed(),
        course_created(
            old(catalog)@,
            caller@,
            caller_text@,
            now,
            title@,
            description@,
            token_reward,
            result,
            final(catalog)@,
        ),
{
    let id = record_id(caller_text, now);
    if !table_has(&catalog.educators, caller.as_bytes()) {
        return Err(CatalogError::ProfileNotFound);
    }
    let course = Course {
        id,
        title,
        description,
        educator_id: caller.clone(),
        sections: Vec::new(),
        created_at: now,
        updated_at: now,
        published: false,
        token_reward,
    };
    proof {
        assert(course@.sections =~= Seq::<CourseSectionView>::empty());
    }
    let key = string_bytes(&course.id);
    proof {
        lemma_key_within_record::<Course>(course@, 0);
    }
    if table_put::<Course>(&mut catalog.courses, key, &course) {
        Ok(course)
    } else {
        Err(CatalogError::RecordTooLarge)
    }
}

/// Creates a course of the caller, who must have a profile, and stores it
/// under an id made of the caller's textual identity and the time, in place
/// of a course already there with that id.
pub fn create_course(
    catalog: &mut Catalog,
    caller: &AccountId,
    now: u64,
    title: String,
    description: String,
    token_reward: u64,
) -> (result: Result<Course, CatalogError>)
    requires
        old(catalog).well_formed(),
    ensures
        final(catalog).well_formed(),
        course_created(
            old(catalog)@,
            caller@,
            account_text(caller@),
            now,
            title@,
            description@,
            token_reward,
            result,
            final(catalog)@,
        ),
{
    let text = caller.to_text();
    create_course_as(catalog, caller, text.as_str(), now, title, description, token_reward)
}

/// The section that is added to a course of `count` sections: its id is the
/// course id and `count`, and its place is `count`.
pub open spec fn added_section(
    course_id: Seq<char>,
    count: nat,
    title: Seq<char>,
    content: Seq<char>,
) -> CourseSectionView {
    CourseSectionView {
        id: joined_text(course_id, decimal_text(count)),
        title,
        content,
        order: (count % 0x1_0000_0000) as u32,
    }
}

/// What adding a section to the course under `course_id` gives: the course
/// with the section at its end, or the reason for refusing.
pub open spec fn course_with_section(
    courses: Map<Seq<u8>, CourseView>,
    course_id: Seq<char>,
    caller: Seq<u8>,
    now: u64,
    title: Seq<char>,
    content: Seq<char>,
) -> Result<CourseView, CatalogError> {
    let key = encode_utf8(course_id);
    if !courses.contains_key(key) {
        Err(CatalogError::CourseNotFound)
    } else if courses[key].educator_id != caller {
        Err(CatalogError::SectionsByCreatorOnly)
    } else {
        let course = CourseView {
            sections: courses[key].sections.push(
                added_section(course_id, courses[key].sections.len(), title, content),
            ),
            updated_at: now,
            ..courses[key]
        };
        if storable::<Course>(course) {
            Ok(course)
        } else {
            Err(CatalogError::RecordTooLarge)
        }
    }
}

/// Adds a section at the end of a course. Only the course's creator may do
/// so.
pub fn add_course_section(
    catalog: &mut Catalog,
    caller: &AccountId,
    now: u64,
    course_id: String,
    title: String,
    content: String,
) -> (result: Result<Course, CatalogError>)
    requires
        old(catalog).well_formed(),
    ensures
        final(catalog).well_formed(),
        final(catalog)@.educators == old(catalog)@.educators,
        ({
            let outcome = course_with_section(
                old(catalog)@.courses,
                course_id@,
                caller@,
                now,
                title@,
                content@,
            );
            match result {
                Ok(course) => {
                    &&& outcome == Ok::<CourseView, CatalogError>(course@)
                    &&& final(catalog)@.courses == old(catalog)@.courses.insert(
                        encode_utf8(course_id@),
                        course@,
                    )
                },
                Err(error) => outcome == Err::<CourseView, CatalogError>(error) && final(catalog)@
                    == old(catalog)@,
            }
        }),
{
    let key = string_bytes(&course_id);
    let mut course = match table_get::<Course>(&catalog.courses, &key) {
        Some(course) => course,
        None => {
            return Err(CatalogError::CourseNotFound);
        },
    };
    if !course.educator_id.same_as(caller) {
        return Err(CatalogError::SectionsByCreatorOnly);
    }
    let count = course.sections.len();
    let section = CourseSection {
        id: joined(course_id.as_str(), decimal_string(count as u64).as_str()),
        title,
        content,
        order: ((count as u64) % 0x1_0000_0000) as u32,
    };
    let ghost before = course@;
    course.sections.push(section);
    course.updated_at = now;
    proof {
        assert(course@.sections =~= before.sections.push(section@));
    }
    if table_put::<Course>(&mut catalog.courses, key, &course) {
        Ok(course)
    } else {
        Err(CatalogError::RecordTooLarge)
    }
}

/// What publishing the course under `key` gives: the course, published, or
/// the reason for refusing.
pub open spec fn published_course(
    courses: Map<Seq<u8>, CourseView>,
    key: Seq<u8>,
    caller: Seq<u8>,
    now: u64,
) -> Result<CourseView, CatalogError> {
    if !courses.contains_key(key) {
        Err(CatalogError::CourseNotFound)
    } else if courses[key].educator_id != caller {
        Err(CatalogError::PublishingByCreatorOnly)
    } else if courses[key].sections.len() == 0 {
        Err(CatalogError::NoSections)
    } else {
        let course = CourseView { published: true, updated_at: now, ..courses[key] };
        if storable::<Course>(course) {
            Ok(course)
        } else {
            Err(CatalogError::RecordTooLarge)
        }
    }
}

/// Publishes a course. Only the course's creator may do so, and only if the
/// course has a section.
pub fn publish_course(catalog: &mut Catalog, caller: &AccountId, now: u64, course_id: String) -> (result:
    Result<Course, CatalogError>)
    requires
        old(catalog).well_formed(),
    ensures
        final(catalog).well_formed(),
        final(catalog)@.educators == old(catalog)@.educators,
        ({
            let key = encode_utf8(course_id@);
            let outcome = published_course(old(catalog)@.courses, key, caller@, now);
            match result {
                Ok(course) => {
                    &&& outcome == Ok::<CourseView, CatalogError>(course@)
                    &&& final(catalog)@.courses == old(catalog)@.courses.insert(key, course@)
                },
                Err(error) => outcome == Err::<CourseView, CatalogError>(error) && final(catalog)@
                    == old(catalog)@,
            }
        }),
{
    let key = string_bytes(&course_id);
    let mut course = match table_get::<Course>(&catalog.courses, &key) {
        Some(course) => course,
        None => {
            return Err(CatalogError::CourseNotFound);
        },
    };
    if !course.educator_id.same_as(caller) {
        return Err(CatalogError::PublishingByCreatorOnly);
    }
    if course.sections.len() == 0 {
        return Err(CatalogError::NoSections);
    }
    course.published = true;
    course.updated_at = now;
    if table_put::<Course>(&mut catalog.courses, key, &course) {
        Ok(course)
    } else {
        Err(CatalogError::RecordTooLarge)
    }
}

/// The course with the id `course_id`.
pub fn get_course(catalog: &Catalog, course_id: &String) -> (result: Result<Course, CatalogError>)
    requires
        catalog.well_formed(),
    ensures
        ({
            let key = encode_utf8(course_id@);
            match result {
                Ok(course) => catalog@.courses.contains_key(key) && course@ == catalog@.courses[key],
                Err(error) => !catalog@.courses.contains_key(key) && error
                    == CatalogError::CourseNotFound,
            }
        }),
{
    match table_get::<Course>(&catalog.courses, &string_bytes(course_id)) {
        Some(course) => Ok(course),
        None => Err(CatalogError::CourseNotFound),
    }
}

/// The choice of the published courses.
struct Published {}

impl Choice<Course> for Published {
    closed spec fn wants(&self, course: CourseView) -> bool {
        course.published
    }

    fn picks(&self, course: &Course) -> (wanted: bool) {
        course.published
    }
}

/// The published courses, in the ascending order of their ids' bytes.
pub fn get_published_courses(catalog: &Catalog) -> (courses: Vec<Course>)
    requires
        catalog.well_formed(),
    ensures
        views_of(courses@) == ordered_values(catalog@.courses).filter(
            |course: CourseView| course.published,
        ),
{
    let all = table_list::<Course>(&catalog.courses);
    let choice = Published {  };
    let courses = chosen(all, &choice);
    proof {
        let wanted = |course: CourseView| choice.wants(course);
        let stated = |course: CourseView| course.published;
        assert(wanted =~= stated);
    }
    courses
}

/// The choice of the courses of one educator.
struct CreatedBy<'a> {
    educator: &'a AccountId,
}

impl<'a> Choice<Course> for CreatedBy<'a> {
    closed spec fn wants(&self, course: CourseView) -> bool {
        course.educator_id == self.educator@
    }

    fn picks(&self, course: &Course) -> (wanted: bool) {
        course.educator_id.same_as(self.educator)
    }
}

/// The courses that `caller` created, in the ascending order of their ids'
/// bytes.
pub fn get_educator_courses(catalog: &Catalog, caller: &AccountId) -> (courses: Vec<Course>)
    requires
        catalog.well_formed(),
    ensures
        views_of(courses@) == ordered_values(catalog@.courses).filter(
            |course: CourseView| course.educator_id == caller@,
        ),
{
    let all = table_list::<Course>(&catalog.courses);
    let choice = CreatedBy { educator: caller };
    let courses = chosen(all, &choice);
    proof {
        let wanted = |course: CourseView| choice.wants(course);
        let stated = |course: CourseView| course.educator_id == caller@;
        assert(wanted =~= stated);
    }
    courses
}

} // verus!
