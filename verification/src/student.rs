//! The students: their profiles, their enrollments in courses, and the
//! certificates for the courses they completed.

use crate::account::{account_text, query_target, AccountId, MAX_ACCOUNT_BYTES};
use crate::fields::{
    bool_field, field_account, field_bool, field_optional_u64, field_text, field_texts,
    field_u64, lemma_fields_read_back, lemma_texts_read_back, optional_u64_field, read_account,
    read_bool, read_optional_u64, read_text, read_texts, read_u64, text_views, texts_field,
    texts_fit, u64_field, write_bool, write_optional_u64, write_texts,
};
use crate::ident::{joined, joined_text};
use crate::ledger::LedgerError;
use crate::store::{store_triple, store_triple_opened, RecordStore};
use crate::table::{
    chosen, encode, lemma_key_within_record, ordered_values, storable, table_check,
    table_get, table_has, table_list, table_ok, table_put, table_view, views_of, Choice,
    Record,
};
use crate::wire::{copy_bytes, field_views, string_bytes, MAX_FIELD_BYTES};
use vstd::bytes::*;
use vstd::prelude::*;
use vstd::string::*;
use vstd::utf8::*;

verus! {

/// The most bytes a stored student profile may take.
pub const MAX_STUDENT_BYTES: usize = 1024;

/// The most bytes a stored enrollment may take.
pub const MAX_ENROLLMENT_BYTES: usize = 2048;

/// The most bytes a stored certificate may take.
pub const MAX_CERTIFICATE_BYTES: usize = 1024;

/// The profile of a student.
#[derive(Debug)]
pub struct StudentProfile {
    pub principal: AccountId,
    pub name: String,
    pub email: String,
    pub bio: String,
    pub created_at: u64,
    pub updated_at: u64,
}

/// The enrollment of a student in a course, with the ids of the sections
/// completed so far.
#[derive(Debug)]
pub struct Enrollment {
    pub student_id: AccountId,
    pub course_id: String,
    pub enrolled_at: u64,
    pub progress: Vec<String>,
    pub completed: bool,
    pub completed_at: Option<u64>,
}

/// The certificate for a completed course.
#[derive(Debug)]
pub struct Certificate {
    pub student_id: AccountId,
    pub course_id: String,
    pub student_name: String,
    pub course_title: String,
    pub completion_date: u64,
    pub certificate_id: String,
}

/// A student's profile as a mathematical value.
pub struct StudentProfileView {
    pub principal: Seq<u8>,
    pub name: Seq<char>,
    pub email: Seq<char>,
    pub bio: Seq<char>,
    pub created_at: u64,
    pub updated_at: u64,
}

/// An enrollment as a mathematical value.
pub struct EnrollmentView {
    pub student_id: Seq<u8>,
    pub course_id: Seq<char>,
    pub enrolled_at: u64,
    pub progress: Seq<Seq<char>>,
    pub completed: bool,
    pub completed_at: Option<u64>,
}

/// A certificate as a mathematical value.
pub struct CertificateView {
    pub student_id: Seq<u8>,
    pub course_id: Seq<char>,
    pub student_name: Seq<char>,
    pub course_title: Seq<char>,
    pub completion_date: u64,
    pub certificate_id: Seq<char>,
}

impl View for StudentProfile {
    type V = StudentProfileView;

    open spec fn view(&self) -> StudentProfileView {
        StudentProfileView {
            principal: self.principal@,
            name: self.name@,
            email: self.email@,
            bio: self.bio@,
            created_at: self.created_at,
            updated_at: self.updated_at,
        }
    }
}

impl View for Enrollment {
    type V = EnrollmentView;

    open spec fn view(&self) -> EnrollmentView {
        EnrollmentView {
            student_id: self.student_id@,
            course_id: self.course_id@,
            enrolled_at: self.enrolled_at,
            progress: text_views(self.progress@),
            completed: self.completed,
            completed_at: self.completed_at,
        }
    }
}

impl View for Certificate {
    type V = CertificateView;

    open spec fn view(&self) -> CertificateView {
        CertificateView {
            student_id: self.student_id@,
            course_id: self.course_id@,
            student_name: self.student_name@,
            course_title: self.course_title@,
            completion_date: self.completion_date,
            certificate_id: self.certificate_id@,
        }
    }
}

impl Record for StudentProfile {
    open spec fn limit() -> nat {
        MAX_STUDENT_BYTES as nat
    }

    open spec fn valid(value: StudentProfileView) -> bool {
        value.principal.len() <= MAX_ACCOUNT_BYTES
    }

    open spec fn fields_of(value: StudentProfileView) -> Seq<Seq<u8>> {
        seq![
            value.principal,
            encode_utf8(value.name),
            encode_utf8(value.email),
            encode_utf8(value.bio),
            u64_field(value.created_at),
            u64_field(value.updated_at),
        ]
    }

    open spec fn of_fields(fields: Seq<Seq<u8>>) -> Option<StudentProfileView> {
        if fields.len() == 6 && field_account(fields[0]) is Some && field_text(fields[1]) is Some
            && field_text(fields[2]) is Some && field_text(fields[3]) is Some && field_u64(
            fields[4],
        ) is Some && field_u64(fields[5]) is Some {
            Some(
                StudentProfileView {
                    principal: field_account(fields[0])->0,
                    name: field_text(fields[1])->0,
                    email: field_text(fields[2])->0,
                    bio: field_text(fields[3])->0,
                    created_at: field_u64(fields[4])->0,
                    updated_at: field_u64(fields[5])->0,
                },
            )
        } else {
            None
        }
    }

    proof fn lemma_fields_read_back(value: StudentProfileView) {
        lemma_fields_read_back();
    }

    fn size_limit() -> (limit: usize) {
        MAX_STUDENT_BYTES
    }

    fn to_fields(&self) -> (fields: Option<Vec<Vec<u8>>>) {
        let mut fields: Vec<Vec<u8>> = Vec::new();
        fields.push(copy_bytes(self.principal.as_bytes()));
        fields.push(string_bytes(&self.name));
        fields.push(string_bytes(&self.email));
        fields.push(string_bytes(&self.bio));
        fields.push(u64_to_le_bytes(self.created_at));
        fields.push(u64_to_le_bytes(self.updated_at));
        proof {
            assert(field_views(fields@) =~= Self::fields_of(self@));
        }
        Some(fields)
    }

    fn from_fields(fields: &Vec<Vec<u8>>) -> (value: Option<StudentProfile>) {
        if fields.len() != 6 {
            return None;
        }
        let principal = read_account(&fields[0]);
        let name = read_text(&fields[1]);
        let email = read_text(&fields[2]);
        let bio = read_text(&fields[3]);
        let created_at = read_u64(&fields[4]);
        let updated_at = read_u64(&fields[5]);
        match (principal, name, email, bio, created_at, updated_at) {
            (
                Some(principal),
                Some(name),
                Some(email),
                Some(bio),
                Some(created_at),
                Some(updated_at),
            ) => Some(StudentProfile { principal, name, email, bio, created_at, updated_at }),
            _ => None,
        }
    }
}

impl Record for Enrollment {
    open spec fn limit() -> nat {
        MAX_ENROLLMENT_BYTES as nat
    }

    open spec fn valid(value: EnrollmentView) -> bool {
        value.student_id.len() <= MAX_ACCOUNT_BYTES && texts_fit(value.progress)
    }

    open spec fn fields_of(value: EnrollmentView) -> Seq<Seq<u8>> {
        seq![
            value.student_id,
            encode_utf8(value.course_id),
            u64_field(value.enrolled_at),
            texts_field(value.progress),
            bool_field(value.completed),
            optional_u64_field(value.completed_at),
        ]
    }

    open spec fn of_fields(fields: Seq<Seq<u8>>) -> Option<EnrollmentView> {
        if fields.len() == 6 && field_account(fields[0]) is Some && field_text(fields[1]) is Some
            && field_u64(fields[2]) is Some && field_texts(fields[3]) is Some && field_bool(
            fields[4],
        ) is Some && field_optional_u64(fields[5]) is Some {
            Some(
                EnrollmentView {
                    student_id: field_account(fields[0])->0,
                    course_id: field_text(fields[1])->0,
                    enrolled_at: field_u64(fields[2])->0,
                    progress: field_texts(fields[3])->0,
                    completed: field_bool(fields[4])->0,
                    completed_at: field_optional_u64(fields[5])->0,
                },
            )
        } else {
            None
        }
    }

    proof fn lemma_fields_read_back(value: EnrollmentView) {
        lemma_fields_read_back();
        lemma_texts_read_back(value.progress);
    }

    fn size_limit() -> (limit: usize) {
        MAX_ENROLLMENT_BYTES
    }

    fn to_fields(&self) -> (fields: Option<Vec<Vec<u8>>>) {
        let progress = match write_texts(&self.progress) {
            Some(progress) => progress,
            None => {
                return None;
            },
        };
        let mut fields: Vec<Vec<u8>> = Vec::new();
        fields.push(copy_bytes(self.student_id.as_bytes()));
        fields.push(string_bytes(&self.course_id));
        fields.push(u64_to_le_bytes(self.enrolled_at));
        fields.push(progress);
        fields.push(write_bool(self.completed));
        fields.push(write_optional_u64(self.completed_at));
        proof {
            assert(field_views(fields@) =~= Self::fields_of(self@));
        }
        Some(fields)
    }

    fn from_fields(fields: &Vec<Vec<u8>>) -> (value: Option<Enrollment>) {
        if fields.len() != 6 {
            return None;
        }
        let student_id = read_account(&fields[0]);
        let course_id = read_text(&fields[1]);
        let enrolled_at = read_u64(&fields[2]);
        let progress = read_texts(&fields[3]);
        let completed = read_bool(&fields[4]);
        let completed_at = read_optional_u64(&fields[5]);
        match (student_id, course_id, enrolled_at, progress, completed, completed_at) {
            (
                Some(student_id),
                Some(course_id),
                Some(enrolled_at),
                Some(progress),
                Some(completed),
                Some(completed_at),
            ) => Some(
                Enrollment { student_id, course_id, enrolled_at, progress, completed, completed_at },
            ),
            _ => None,
        }
    }
}

impl Record for Certificate {
    open spec fn limit() -> nat {
        MAX_CERTIFICATE_BYTES as nat
    }

    open spec fn valid(value: CertificateView) -> bool {
        value.student_id.len() <= MAX_ACCOUNT_BYTES
    }

    open spec fn fields_of(value: CertificateView) -> Seq<Seq<u8>> {
        seq![
            encode_utf8(value.certificate_id),
            value.student_id,
            encode_utf8(value.course_id),
            encode_utf8(value.student_name),
            encode_utf8(value.course_title),
            u64_field(value.completion_date),
        ]
    }

    open spec fn of_fields(fields: Seq<Seq<u8>>) -> Option<CertificateView> {
        if fields.len() == 6 && field_text(fields[0]) is Some && field_account(fields[1]) is Some
            && field_text(fields[2]) is Some && field_text(fields[3]) is Some && field_text(
            fields[4],
        ) is Some && field_u64(fields[5]) is Some {
            Some(
                CertificateView {
                    student_id: field_account(fields[1])->0,
                    course_id: field_text(fields[2])->0,
                    student_name: field_text(fields[3])->0,
                    course_title: field_text(fields[4])->0,
                    completion_date: field_u64(fields[5])->0,
                    certificate_id: field_text(fields[0])->0,
                },
            )
        } else {
            None
        }
    }

    proof fn lemma_fields_read_back(value: CertificateView) {
        lemma_fields_read_back();
    }

    fn size_limit() -> (limit: usize) {
        MAX_CERTIFICATE_BYTES
    }

    fn to_fields(&self) -> (fields: Option<Vec<Vec<u8>>>) {
        let mut fields: Vec<Vec<u8>> = Vec::new();
        fields.push(string_bytes(&self.certificate_id));
        fields.push(copy_bytes(self.student_id.as_bytes()));
        fields.push(string_bytes(&self.course_id));
        fields.push(string_bytes(&self.student_name));
        fields.push(string_bytes(&self.course_title));
        fields.push(u64_to_le_bytes(self.completion_date));
        proof {
            assert(field_views(fields@) =~= Self::fields_of(self@));
        }
        Some(fields)
    }

    fn from_fields(fields: &Vec<Vec<u8>>) -> (value: Option<Certificate>) {
        if fields.len() != 6 {
            return None;
        }
        let certificate_id = read_text(&fields[0]);
        let student_id = read_account(&fields[1]);
        let course_id = read_text(&fields[2]);
        let student_name = read_text(&fields[3]);
        let course_title = read_text(&fields[4]);
        let completion_date = read_u64(&fields[5]);
        match (certificate_id, student_id, course_id, student_name, course_title, completion_date) {
            (
                Some(certificate_id),
                Some(student_id),
                Some(course_id),
                Some(student_name),
                Some(course_title),
                Some(completion_date),
            ) => Some(
                Certificate {
                    student_id,
                    course_id,
                    student_name,
                    course_title,
                    completion_date,
                    certificate_id,
                },
            ),
            _ => None,
        }
    }
}

/// Why an operation on the students' records was refused.
#[derive(Clone, Copy, Debug, PartialEq, Eq, Structural)]
pub enum StudentError {
    /// The student has no profile.
    ProfileNotFound,
    /// The student is enrolled in the course already.
    AlreadyEnrolled,
    /// The student is not enrolled in the course.
    EnrollmentNotFound,
    /// The record is too large to be stored.
    RecordTooLarge,
}

/// What an error says to the caller.
pub open spec fn student_error_text(error: StudentError) -> Seq<char> {
    match error {
        StudentError::ProfileNotFound => "Student profile not found"@,
        StudentError::AlreadyEnrolled => "Already enrolled in this course"@,
        StudentError::EnrollmentNotFound => "Enrollment not found"@,
        StudentError::RecordTooLarge => "Record too large"@,
    }
}

/// The class of an error.
pub open spec fn student_error_class(error: StudentError) -> LedgerError {
    match error {
        StudentError::ProfileNotFound => LedgerError::RecordNotFound,
        StudentError::AlreadyEnrolled => LedgerError::ValidationError,
        StudentError::EnrollmentNotFound => LedgerError::RecordNotFound,
        StudentError::RecordTooLarge => LedgerError::ValidationError,
    }
}

impl StudentError {
    /// The class of the error.
    pub fn class(&self) -> (class: LedgerError)
        ensures
            class == student_error_class(*self),
    {
        match self {
            StudentError::ProfileNotFound => LedgerError::RecordNotFound,
            StudentError::AlreadyEnrolled => LedgerError::ValidationError,
            StudentError::EnrollmentNotFound => LedgerError::RecordNotFound,
            StudentError::RecordTooLarge => LedgerError::ValidationError,
        }
    }

    /// What the error says to the caller.
    pub fn message(&self) -> (text: String)
        ensures
            text@ == student_error_text(*self),
    {
        match self {
            StudentError::ProfileNotFound => String::from_str("Student profile not found"),
            StudentError::AlreadyEnrolled => String::from_str("Already enrolled in this course"),
            StudentError::EnrollmentNotFound => String::from_str("Enrollment not found"),
            StudentError::RecordTooLarge => String::from_str("Record too large"),
        }
    }
}

/// The students' records as a mathematical value: the profiles by the bytes
/// of the students' identities, the enrollments and the certificates by the
/// UTF-8 bytes of the student's textual identity, an underscore and the
/// course id.
pub struct RegistryView {
    pub profiles: Map<Seq<u8>, StudentProfileView>,
    pub enrollments: Map<Seq<u8>, EnrollmentView>,
    pub certificates: Map<Seq<u8>, CertificateView>,
}

/// The students' profiles, enrollments and certificates, in three durable
/// stores.
pub struct Registry {
    profiles: RecordStore,
    enrollments: RecordStore,
    certificates: RecordStore,
}

impl View for Registry {
    type V = RegistryView;

    closed spec fn view(&self) -> RegistryView {
        RegistryView {
            profiles: table_view::<StudentProfile>(self.profiles),
            enrollments: table_view::<Enrollment>(self.enrollments),
            certificates: table_view::<Certificate>(self.certificates),
        }
    }
}

impl Registry {
    /// Every stored record reads back. This holds of a new registry and of
    /// one that was opened, and every operation keeps it.
    pub closed spec fn well_formed(&self) -> bool {
        &&& table_ok::<StudentProfile>(self.profiles)
        &&& table_ok::<Enrollment>(self.enrollments)
        &&& table_ok::<Certificate>(self.certificates)
    }

    /// The registry that the memory holds, after a restart: empty if the
    /// memory holds none, and `None` if a record in it does not read back.
    pub fn open() -> (registry: Option<Registry>)
        ensures
            registry is Some ==> registry->0.well_formed(),
    {
        let (profiles, enrollments, certificates) = store_triple_opened();
        Registry::from_stores(profiles, enrollments, certificates)
    }

    /// Reads every stored record and tells whether each reads back.
    pub fn audit(&self) -> (sound: bool)
        ensures
            sound == self.well_formed(),
    {
        table_check::<StudentProfile>(&self.profiles) && table_check::<Enrollment>(
            &self.enrollments,
        ) && table_check::<Certificate>(&self.certificates)
    }

    /// The registry that three stores hold: its profiles, its enrollments
    /// and its certificates are what the stores' records read back as.
    /// `None` if a record of one of them does not read back as what that
    /// store is for.
    pub fn from_stores(
        profiles: RecordStore,
        enrollments: RecordStore,
        certificates: RecordStore,
    ) -> (registry: Option<Registry>)
        ensures
            registry is Some == (table_ok::<StudentProfile>(profiles) && table_ok::<Enrollment>(
                enrollments,
            ) && table_ok::<Certificate>(certificates)),
            registry is Some ==> registry->0.well_formed(),
            registry is Some ==> registry->0@ == (RegistryView {
                profiles: table_view::<StudentProfile>(profiles),
                enrollments: table_view::<Enrollment>(enrollments),
                certificates: table_view::<Certificate>(certificates),
            }),
    {
        let registry = Registry { profiles, enrollments, certificates };
        if registry.audit() {
            Some(registry)
        } else {
            None
        }
    }

    /// An empty registry, in place of whatever the memory held.
    pub fn new() -> (registry: Registry)
        ensures
            registry.well_formed(),
            registry@.profiles == Map::<Seq<u8>, StudentProfileView>::empty(),
            registry@.enrollments == Map::<Seq<u8>, EnrollmentView>::empty(),
            registry@.certificates == Map::<Seq<u8>, CertificateView>::empty(),
    {
        let (profiles, enrollments, certificates) = store_triple();
        let registry = Registry { profiles, enrollments, certificates };
        proof {
            assert(registry@.profiles =~= Map::<Seq<u8>, StudentProfileView>::empty());
            assert(registry@.enrollments =~= Map::<Seq<u8>, EnrollmentView>::empty());
            assert(registry@.certificates =~= Map::<Seq<u8>, CertificateView>::empty());
        }
        registry
    }
}

/// The key of the enrollment in the course `course_id` of the student whose
/// textual identity is `caller_text`, and of the certificate for it.
pub open spec fn enrollment_key(caller_text: Seq<char>, course_id: Seq<char>) -> Seq<u8> {
    encode_utf8(joined_text(caller_text, course_id))
}

/// The profile that `caller` makes at time `now`.
pub open spec fn made_student_profile(
    caller: Seq<u8>,
    now: u64,
    name: Seq<char>,
    email: Seq<char>,
    bio: Seq<char>,
) -> StudentProfileView {
    StudentProfileView { principal: caller, name, email, bio, created_at: now, updated_at: now }
}

/// Makes the caller's profile, in place of the one the caller had.
pub fn create_student_profile(
    registry: &mut Registry,
    caller: &AccountId,
    now: u64,
    name: String,
    email: String,
    bio: String,
) -> (result: Result<StudentProfile, StudentError>)
    requires
        old(registry).well_formed(),
    ensures
        final(registry).well_formed(),
        final(registry)@.enrollments == old(registry)@.enrollments,
        final(registry)@.certificates == old(registry)@.certificates,
        ({
            let profile = made_student_profile(caller@, now, name@, email@, bio@);
            match result {
                Ok(made) => {
                    &&& storable::<StudentProfile>(profile)
                    &&& made@ == profile
                    &&& final(registry)@.profiles == old(registry)@.profiles.insert(caller@, profile)
                },
                Err(error) => {
                    &&& !storable::<StudentProfile>(profile)
                    &&& error == StudentError::RecordTooLarge
                    &&& final(registry)@ == old(registry)@
                },
            }
        }),
{
    let profile = StudentProfile {
        principal: caller.clone(),
        name,
        email,
        bio,
        created_at: now,
        updated_at: now,
    };
    let key = copy_bytes(caller.as_bytes());
    if table_put::<StudentProfile>(&mut registry.profiles, key, &profile) {
        Ok(profile)
    } else {
        Err(StudentError::RecordTooLarge)
    }
}

/// The profile of `principal`, or of `caller` if no student is named.
pub fn get_student_profile(
    registry: &Registry,
    caller: &AccountId,
    principal: Option<AccountId>,
) -> (result: Result<StudentProfile, StudentError>)
    requires
        registry.well_formed(),
    ensures
        ({
            let key = query_target(caller@, principal);
            match result {
                Ok(profile) => registry@.profiles.contains_key(key) && profile@
                    == registry@.profiles[key],
                Err(error) => !registry@.profiles.contains_key(key) && error
                    == StudentError::ProfileNotFound,
            }
        }),
{
    let found = match principal {
        Some(account) => table_get::<StudentProfile>(&registry.profiles, account.as_bytes()),
        None => table_get::<StudentProfile>(&registry.profiles, caller.as_bytes()),
    };
    match found {
        Some(profile) => Ok(profile),
        None => Err(StudentError::ProfileNotFound),
    }
}

/// `text`, replaced by `change` if there is one.
pub open spec fn changed_text(text: Seq<char>, change: Option<String>) -> Seq<char> {
    match change {
        Some(new_text) => new_text@,
        None => text,
    }
}

/// What changing the profile of `caller` gives: the profile with the fields
/// given replaced, or the reason for refusing.
pub open spec fn changed_profile(
    profiles: Map<Seq<u8>, StudentProfileView>,
    caller: Seq<u8>,
    now: u64,
    name: Option<String>,
    email: Option<String>,
    bio: Option<String>,
) -> Result<StudentProfileView, StudentError> {
    if !profiles.contains_key(caller) {
        Err(StudentError::ProfileNotFound)
    } else {
        let profile = StudentProfileView {
            name: changed_text(profiles[caller].name, name),
            email: changed_text(profiles[caller].email, email),
            bio: changed_text(profiles[caller].bio, bio),
            updated_at: now,
            ..profiles[caller]
        };
        if storable::<StudentProfile>(profile) {
            Ok(profile)
        } else {
            Err(StudentError::RecordTooLarge)
        }
    }
}

/// Replaces the name, the e-mail address and the biography of the caller's
/// profile, each if one is given.
pub fn update_student_profile(
    registry: &mut Registry,
    caller: &AccountId,
    now: u64,
    name: Option<String>,
    email: Option<String>,
    bio: Option<String>,
) -> (result: Result<StudentProfile, StudentError>)
    requires
        old(registry).well_formed(),
    ensures
        final(registry).well_formed(),
        final(registry)@.enrollments == old(registry)@.enrollments,
        final(registry)@.certificates == old(registry)@.certificates,
        ({
            let outcome = changed_profile(old(registry)@.profiles, caller@, now, name, email, bio);
            match result {
                Ok(profile) => {
                    &&& outcome == Ok::<StudentProfileView, StudentError>(profile@)
                    &&& final(registry)@.profiles == old(registry)@.profiles.insert(
                        caller@,
                        profile@,
                    )
                },
                Err(error) => {
                    &&& outcome == Err::<StudentProfileView, StudentError>(error)
                    &&& final(registry)@ == old(registry)@
                },
            }
        }),
{
    let mut profile = match table_get::<StudentProfile>(&registry.profiles, caller.as_bytes()) {
        Some(profile) => profile,
        None => {
            return Err(StudentError::ProfileNotFound);
        },
    };
    if let Some(new_name) = name {
        profile.name = new_name;
    }
    if let Some(new_email) = email {
        profile.email = new_email;
    }
    if let Some(new_bio) = bio {
        profile.bio = new_bio;
    }
    profile.updated_at = now;
    let key = copy_bytes(caller.as_bytes());
    if table_put::<StudentProfile>(&mut registry.profiles, key, &profile) {
        Ok(profile)
    } else {
        Err(StudentError::RecordTooLarge)
    }
}

/// The enrollment that `caller` starts at time `now`.
pub open spec fn started_enrollment(caller: Seq<u8>, now: u64, course_id: Seq<char>) -> EnrollmentView {
    EnrollmentView {
        student_id: caller,
        course_id,
        enrolled_at: now,
        progress: Seq::empty(),
        completed: false,
        completed_at: None,
    }
}

/// What enrolling leads to: the enrollment stored, or the reason for
/// refusing and the registry unchanged. An enrollment is too large also if
/// the length of its key does not fit in 32 bits.
pub open spec fn enrolled(
    before: RegistryView,
    caller: Seq<u8>,
    caller_text: Seq<char>,
    now: u64,
    course_id: Seq<char>,
    result: Result<Enrollment, StudentError>,
    after: RegistryView,
) -> bool {
    let key = enrollment_key(caller_text, course_id);
    let enrollment = started_enrollment(caller, now, course_id);
    let already = before.enrollments.contains_key(key);
    let fits = storable::<Enrollment>(enrollment) && key.len() <= MAX_FIELD_BYTES;
    match result {
        Ok(started) => {
            &&& !already
            &&& fits
            &&& started@ == enrollment
            &&& after.enrollments == before.enrollments.insert(key, enrollment)
            &&& after.profiles == before.profiles
            &&& after.certificates == before.certificates
        },
        Err(error) => {
            &&& after == before
            &&& error == if already {
                StudentError::AlreadyEnrolled
            } else {
                StudentError::RecordTooLarge
            }
            &&& !already ==> !fits
        },
    }
}

/// Enrolls in a course the caller whose textual identity is `caller_text`.
/// Refused if the caller is enrolled in it already.
pub fn enroll_in_course_as(
    registry: &mut Registry,
    caller: &AccountId,
    caller_text: &str,
    now: u64,
    course_id: String,
) -> (result: Result<Enrollment, StudentError>)
    requires
        old(registry).well_formed(),
    ensures
        final(registry).well_formed(),
        enrolled(old(registry)@, caller@, caller_text@, now, course_id@, result, final(registry)@),
{
    let key = string_bytes(&joined(caller_text, course_id.as_str()));
    if table_has(&registry.enrollments, &key) {
        return Err(StudentError::AlreadyEnrolled);
    }
    let enrollment = Enrollment {
        student_id: caller.clone(),
        course_id,
        enrolled_at: now,
        progress: Vec::new(),
        completed: false,
        completed_at: None,
    };
    proof {
        assert(enrollment@.progress =~= Seq::<Seq<char>>::empty());
    }
    if table_put::<Enrollment>(&mut registry.enrollments, key, &enrollment) {
        Ok(enrollment)
    } else {
        Err(StudentError::RecordTooLarge)
    }
}

/// Enrolls the caller in a course. Refused if the caller is enrolled in it
/// already.
pub fn enroll_in_course(registry: &mut Registry, caller: &AccountId, now: u64, course_id: String) -> (result:
    Result<Enrollment, StudentError>)
    requires
        old(registry).well_formed(),
    ensures
        final(registry).well_formed(),
        enrolled(
            old(registry)@,
            caller@,
            account_text(caller@),
            now,
            course_id@,
            result,
            final(registry)@,
        ),
{
    let text = caller.to_text();
    enroll_in_course_as(registry, caller, text.as_str(), now, course_id)
}

/// Whether `text` is one of `texts`.
pub fn has_text(texts: &Vec<String>, text: &String) -> (found: bool)
    ensures
        found == text_views(texts@).contains(text@),
{
    let mut i: usize = 0;
    while i < texts.len()
        invariant
            i <= texts.len(),
            forall|j: int| 0 <= j < i ==> texts@[j]@ != text@,
        decreases texts.len() - i,
    {
        if texts[i] == *text {
            proof {
                assert(text_views(texts@)[i as int] == text@);
            }
            return true;
        }
        i += 1;
    }
    false
}

/// What marking a section gives: the enrollment with the section among
/// those completed, at the end if it was not among them, or the reason for
/// refusing.
pub open spec fn enrollment_with_section(
    enrollments: Map<Seq<u8>, EnrollmentView>,
    key: Seq<u8>,
    section_id: Seq<char>,
) -> Result<EnrollmentView, StudentError> {
    if !enrollments.contains_key(key) {
        Err(StudentError::EnrollmentNotFound)
    } else if enrollments[key].progress.contains(section_id) {
        Ok(enrollments[key])
    } else {
        let enrollment = EnrollmentView {
            progress: enrollments[key].progress.push(section_id),
            ..enrollments[key]
        };
        if storable::<Enrollment>(enrollment) {
            Ok(enrollment)
        } else {
            Err(StudentError::RecordTooLarge)
        }
    }
}

/// What marking a section leads to: the enrollment stored with the section
/// among those completed, or the reason for refusing and the registry
/// unchanged.
pub open spec fn section_marked(
    before: RegistryView,
    caller_text: Seq<char>,
    course_id: Seq<char>,
    section_id: Seq<char>,
    result: Result<Enrollment, StudentError>,
    after: RegistryView,
) -> bool {
    let key = enrollment_key(caller_text, course_id);
    let outcome = enrollment_with_section(before.enrollments, key, section_id);
    match result {
        Ok(enrollment) => {
            &&& outcome == Ok::<EnrollmentView, StudentError>(enrollment@)
            &&& after.enrollments == before.enrollments.insert(key, enrollment@)
            &&& after.profiles == before.profiles
            &&& after.certificates == before.certificates
        },
        Err(error) => {
            &&& outcome == Err::<EnrollmentView, StudentError>(error)
            &&& after == before
        },
    }
}

/// Marks a section of a course as completed by the caller whose textual
/// identity is `caller_text`. Marking a section twice changes nothing.
pub fn mark_section_complete_as(
    registry: &mut Registry,
    caller_text: &str,
    course_id: String,
    section_id: String,
) -> (result: Result<Enrollment, StudentError>)
    requires
        old(registry).well_formed(),
    ensures
        final(registry).well_formed(),
        section_marked(
            old(registry)@,
            caller_text@,
            course_id@,
            section_id@,
            result,
            final(registry)@,
        ),
{
    let key = string_bytes(&joined(caller_text, course_id.as_str()));
    let mut enrollment = match table_get::<Enrollment>(&registry.enrollments, &key) {
        Some(enrollment) => enrollment,
        None => {
            return Err(StudentError::EnrollmentNotFound);
        },
    };
    if has_text(&enrollment.progress, &section_id) {
        proof {
            let before = old(registry)@.enrollments;
            assert(before.insert(key@, enrollment@) =~= before);
        }
        return Ok(enrollment);
    }
    let ghost before = enrollment@;
    enrollment.progress.push(section_id);
    proof {
        assert(enrollment@.progress =~= before.progress.push(section_id@));
    }
    if table_put::<Enrollment>(&mut registry.enrollments, key, &enrollment) {
        Ok(enrollment)
    } else {
        Err(StudentError::RecordTooLarge)
    }
}

/// Marks a section of a course as completed by the caller. Marking a
/// section twice changes nothing.
pub fn mark_section_complete(
    registry: &mut Registry,
    caller: &AccountId,
    course_id: String,
    section_id: String,
) -> (result: Result<Enrollment, StudentError>)
    requires
        old(registry).well_formed(),
    ensures
        final(registry).well_formed(),
        section_marked(
            old(registry)@,
            account_text(caller@),
            course_id@,
            section_id@,
            result,
            final(registry)@,
        ),
{
    let text = caller.to_text();
    mark_section_complete_as(registry, text.as_str(), course_id, section_id)
}

/// The certificate that `caller`, whose textual identity is `caller_text`,
/// gets at time `now`.
pub open spec fn issued_certificate(
    profile: StudentProfileView,
    caller: Seq<u8>,
    caller_text: Seq<char>,
    now: u64,
    course_id: Seq<char>,
    course_title: Seq<char>,
) -> CertificateView {
    CertificateView {
        student_id: caller,
        course_id,
        student_name: profile.name,
        course_title,
        completion_date: now,
        certificate_id: joined_text(caller_text, course_id),
    }
}

/// An enrollment, completed at time `now`.
pub open spec fn completed_enrollment(enrollment: EnrollmentView, now: u64) -> EnrollmentView {
    EnrollmentView { completed: true, completed_at: Some(now), ..enrollment }
}

/// The enrollments after the one under `key`, if there is one, is completed
/// at time `now`.
pub open spec fn enrollments_after_completion(
    enrollments: Map<Seq<u8>, EnrollmentView>,
    key: Seq<u8>,
    now: u64,
) -> Map<Seq<u8>, EnrollmentView> {
    if enrollments.contains_key(key) {
        enrollments.insert(key, completed_enrollment(enrollments[key], now))
    } else {
        enrollments
    }
}

/// Why the course cannot be completed, if it cannot.
pub open spec fn completion_refusal(
    before: RegistryView,
    caller: Seq<u8>,
    caller_text: Seq<char>,
    now: u64,
    course_id: Seq<char>,
    course_title: Seq<char>,
) -> Option<StudentError> {
    let key = enrollment_key(caller_text, course_id);
    if !before.profiles.contains_key(caller) {
        Some(StudentError::ProfileNotFound)
    } else if !storable::<Certificate>(
        issued_certificate(before.profiles[caller], caller, caller_text, now, course_id, course_title),
    ) || (before.enrollments.contains_key(key) && !storable::<Enrollment>(
        completed_enrollment(before.enrollments[key], now),
    )) {
        Some(StudentError::RecordTooLarge)
    } else {
        None
    }
}

/// What completing a course leads to: the certificate stored and the
/// enrollment, if there is one, completed, or the reason for refusing and
/// the registry unchanged.
pub open spec fn course_completed(
    before: RegistryView,
    caller: Seq<u8>,
    caller_text: Seq<char>,
    now: u64,
    course_id: Seq<char>,
    course_title: Seq<char>,
    result: Result<Certificate, StudentError>,
    after: RegistryView,
) -> bool {
    let key = enrollment_key(caller_text, course_id);
    let refusal = completion_refusal(before, caller, caller_text, now, course_id, course_title);
    match result {
        Ok(certificate) => {
            &&& refusal is None
            &&& certificate@ == issued_certificate(
                before.profiles[caller],
                caller,
                caller_text,
                now,
                course_id,
                course_title,
            )
            &&& after.certificates == before.certificates.insert(key, certificate@)
            &&& after.enrollments == enrollments_after_completion(before.enrollments, key, now)
            &&& after.profiles == before.profiles
        },
        Err(error) => refusal == Some(error) && after == before,
    }
}

/// Completes a course for the caller, who must have a profile and whose
/// textual identity is `caller_text`: marks the caller's enrollment in the
/// course, if there is one, as completed, and issues a certificate in the
/// name of the profile, in place of a certificate already issued for the
/// course. Nothing is written if the completion is refused.
pub fn complete_course_as(
    registry: &mut Registry,
    caller: &AccountId,
    caller_text: &str,
    now: u64,
    course_id: String,
    course_title: String,
) -> (result: Result<Certificate, StudentError>)
    requires
        old(registry).well_formed(),
    ensures
        final(registry).well_formed(),
        course_completed(
            old(registry)@,
            caller@,
            caller_text@,
            now,
            course_id@,
            course_title@,
            result,
            final(registry)@,
        ),
{
    let certificate_id = joined(caller_text, course_id.as_str());
    let key = string_bytes(&certificate_id);
    let profile = match table_get::<StudentProfile>(&registry.profiles, caller.as_bytes()) {
        Some(profile) => profile,
        None => {
            return Err(StudentError::ProfileNotFound);
        },
    };
    let certificate = Certificate {
        student_id: caller.clone(),
        course_id,
        student_name: profile.name,
        course_title,
        completion_date: now,
        certificate_id,
    };
    if encode::<Certificate>(&certificate).is_none() {
        return Err(StudentError::RecordTooLarge);
    }
    proof {
        lemma_key_within_record::<Certificate>(certificate@, 0);
    }
    match table_get::<Enrollment>(&registry.enrollments, &key) {
        Some(found) => {
            let mut enrollment = found;
            enrollment.completed = true;
            enrollment.completed_at = Some(now);
            if !table_put::<Enrollment>(&mut registry.enrollments, copy_bytes(&key), &enrollment) {
                return Err(StudentError::RecordTooLarge);
            }
        },
        None => {},
    }
    let stored = table_put::<Certificate>(&mut registry.certificates, key, &certificate);
    assert(stored);
    Ok(certificate)
}

/// Completes a course for the caller, who must have a profile: marks the
/// caller's enrollment in the course, if there is one, as completed, and
/// issues a certificate in the name of the profile, in place of a
/// certificate already issued for the course. Nothing is written if the
/// completion is refused.
pub fn complete_course(
    registry: &mut Registry,
    caller: &AccountId,
    now: u64,
    course_id: String,
    course_title: String,
) -> (result: Result<Certificate, StudentError>)
    requires
        old(registry).well_formed(),
    ensures
        final(registry).well_formed(),
        course_completed(
            old(registry)@,
            caller@,
            account_text(caller@),
            now,
            course_id@,
            course_title@,
            result,
            final(registry)@,
        ),
{
    let text = caller.to_text();
    complete_course_as(registry, caller, text.as_str(), now, course_id, course_title)
}

/// The choice of the enrollments of one student.
struct EnrolledAs<'a> {
    student: &'a AccountId,
}

impl<'a> Choice<Enrollment> for EnrolledAs<'a> {
    closed spec fn wants(&self, enrollment: EnrollmentView) -> bool {
        enrollment.student_id == self.student@
    }

    fn picks(&self, enrollment: &Enrollment) -> (wanted: bool) {
        enrollment.student_id.same_as(self.student)
    }
}

/// The enrollments of `caller`, in the ascending order of their keys.
pub fn get_student_enrollments(registry: &Registry, caller: &AccountId) -> (enrollments: Vec<
    Enrollment,
>)
    requires
        registry.well_formed(),
    ensures
        views_of(enrollments@) == ordered_values(registry@.enrollments).filter(
            |enrollment: EnrollmentView| enrollment.student_id == caller@,
        ),
{
    let all = table_list::<Enrollment>(&registry.enrollments);
    let choice = EnrolledAs { student: caller };
    let enrollments = chosen(all, &choice);
    proof {
        let wanted = |enrollment: EnrollmentView| choice.wants(enrollment);
        let stated = |enrollment: EnrollmentView| enrollment.student_id == caller@;
        assert(wanted =~= stated);
    }
    enrollments
}

/// The choice of the certificates of one student.
struct CertifiedAs<'a> {
    student: &'a AccountId,
}

impl<'a> Choice<Certificate> for CertifiedAs<'a> {
    closed spec fn wants(&self, certificate: CertificateView) -> bool {
        certificate.student_id == self.student@
    }

    fn picks(&self, certificate: &Certificate) -> (wanted: bool) {
        certificate.student_id.same_as(self.student)
    }
}

/// The certificates of `caller`, in the ascending order of their keys.
pub fn get_student_certificates(registry: &Registry, caller: &AccountId) -> (certificates: Vec<
    Certificate,
>)
    requires
        registry.well_formed(),
    ensures
        views_of(certificates@) == ordered_values(registry@.certificates).filter(
            |certificate: CertificateView| certificate.student_id == caller@,
        ),
{
    let all = table_list::<Certificate>(&registry.certificates);
    let choice = CertifiedAs { student: caller };
    let certificates = chosen(all, &choice);
    proof {
        let wanted = |certificate: CertificateView| choice.wants(certificate);
        let stated = |certificate: CertificateView| certificate.student_id == caller@;
        assert(wanted =~= stated);
    }
    certificates
}

} // verus!
