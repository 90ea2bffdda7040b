//! Upload, update and lookup rules for stored objects: who may edit a
//! record, how an upload maps onto it, and how licenses and tags follow.
//! The byte streams themselves go to the storage collaborator; only the
//! record logic lives here.
use crate::models::License;
use crate::models::Object;
use crate::models::ObjectType;
use crate::models::spec_object_type_code;
use crate::models::Tag;
use crate::ApiError;
use vstd::prelude::*;

verus! {

/// What an upload request carries for a new or changed object.
pub struct ObjectUpload {
    pub name: String,
    pub description: String,
    pub tags: Vec<String>,
    pub flags: Vec<bool>,
    pub publicity: i16,
    pub license: String,
    pub encryption_key: Vec<u8>,
    pub encryption_iv: Vec<u8>,
}

/// In-memory model of the license table: the stored code of a license text
/// is its position, assigned when the text is first seen.
pub struct LicenseStore {
    records: Vec<License>,
}

impl View for LicenseStore {
    type V = Seq<License>;

    closed spec fn view(&self) -> Seq<License> {
        self.records@
    }
}

/// The code stored for a license text, if the text is known.
pub open spec fn spec_find_license(s: Seq<License>, text: Seq<char>) -> Option<i32>
    decreases s.len(),
{
    if s.len() == 0 {
        None
    } else if s[0].text@ == text {
        Some(s[0].license)
    } else {
        spec_find_license(s.drop_first(), text)
    }
}

impl LicenseStore {
    /// Codes are the positions the texts were first seen at.
    pub open spec fn wf(&self) -> bool {
        forall|i: int| 0 <= i < self@.len() ==> (#[trigger] self@[i]).license == i
    }

    pub fn new() -> (s: LicenseStore)
        ensures
            s@ == Seq::<License>::empty(),
            s.wf(),
    {
        LicenseStore { records: Vec::new() }
    }

    /// Number of registered license texts; callers check it against the
    /// code space before registering another.
    pub fn len(&self) -> (n: usize)
        ensures
            n == self@.len(),
    {
        self.records.len()
    }

    /// Looks a license text up, registering it under a fresh code when it
    /// is new.
    pub fn resolve_license(&mut self, text: &String) -> (id: i32)
        requires
            old(self).wf(),
            old(self)@.len() < 0x7FFFFFFF,
        ensures
            final(self).wf(),
            match spec_find_license(old(self)@, text@) {
                Some(l) => id == l && final(self)@ == old(self)@,
                None => id == old(self)@.len() && final(self)@.len() == old(self)@.len() + 1
                    && final(self)@.drop_last() == old(self)@ && final(self)@.last().license == id
                    && final(self)@.last().text@ == text@,
            },
    {
        let n = self.records.len();
        let mut i: usize = 0;
        proof {
            assert(self@.skip(0) =~= self@);
        }
        while i < n
            invariant
                n == self@.len(),
                *self == *old(self),
                self.wf(),
                0 <= i <= n,
                spec_find_license(self@, text@) == spec_find_license(self@.skip(i as int), text@),
            decreases n - i,
        {
            proof {
                assert(self@.skip(i as int)[0] == self@[i as int]);
                assert(self@.skip(i as int).drop_first() =~= self@.skip(i as int + 1));
            }
            if self.records[i].text == *text {
                return self.records[i].license;
            }
            i = i + 1;
        }
        proof {
            assert(self@.skip(n as int) =~= Seq::<License>::empty());
        }
        let id: i32 = n as i32;
        self.records.push(License { license: id, text: text.clone() });
        proof {
            assert(self@.drop_last() =~= old(self)@);
        }
        id
    }
}

/// In-memory model of the object table.
pub struct ObjectStore {
    records: Vec<Object>,
}

impl View for ObjectStore {
    type V = Seq<Object>;

    closed spec fn view(&self) -> Seq<Object> {
        self.records@
    }
}

/// Some record has this id and kind.
pub open spec fn spec_has_object(s: Seq<Object>, id: u128, code: i16) -> bool {
    exists|i: int| 0 <= i < s.len() && (#[trigger] s[i]).id == id && s[i].object_type == code
}

/// Position of the record with this id and kind; meaningful when it exists,
/// and unique under the store invariant.
pub open spec fn spec_object_index(s: Seq<Object>, id: u128, code: i16) -> int {
    choose|i: int| 0 <= i < s.len() && (#[trigger] s[i]).id == id && s[i].object_type == code
}

impl ObjectStore {
    /// At most one record per id and kind: the pair is the record's key.
    pub open spec fn wf(&self) -> bool {
        forall|i: int, j: int|
            #![trigger self@[i], self@[j]]
            0 <= i < j < self@.len() ==> !(self@[i].id == self@[j].id && self@[i].object_type
                == self@[j].object_type)
    }

    pub fn new() -> (s: ObjectStore)
        ensures
            s@ == Seq::<Object>::empty(),
            s.wf(),
    {
        ObjectStore { records: Vec::new() }
    }

    fn find_index(&self, id: u128, code: i16) -> (r: Option<usize>)
        requires
            self.wf(),
        ensures
            match r {
                Some(i) => spec_has_object(self@, id, code) && i == spec_object_index(
                    self@,
                    id,
                    code,
                ) && 0 <= i < self@.len() && self@[i as int].id == id && self@[i as int].object_type
                    == code,
                None => !spec_has_object(self@, id, code),
            },
    {
        let n = self.records.len();
        let mut i: usize = 0;
        while i < n
            invariant
                n == self@.len(),
                self.wf(),
                0 <= i <= n,
                forall|j: int|
                    0 <= j < i ==> !((#[trigger] self@[j]).id == id && self@[j].object_type
                        == code),
            decreases n - i,
        {
            if self.records[i].id == id && self.records[i].object_type == code {
                proof {
                    assert(spec_has_object(self@, id, code));
                    let c = spec_object_index(self@, id, code);
                    assert(0 <= c < self@.len() && self@[c].id == id && self@[c].object_type
                        == code);
                    if c != i as int {
                        let p = if c < i as int { c } else { i as int };
                        let q = if c < i as int { i as int } else { c };
                        assert(self@[p].id == self@[q].id && self@[p].object_type
                            == self@[q].object_type);
                        assert(!(self@[p].id == self@[q].id && self@[p].object_type
                            == self@[q].object_type));
                        assert(false);
                    }
                }
                return Some(i);
            }
            i = i + 1;
        }
        None
    }

    /// The stored record of this id and kind, or `NotFound`.
    pub fn get_object_info(&self, object_type: ObjectType, object_id: u128) -> (r: Result<
        &Object,
        ApiError,
    >)
        requires
            self.wf(),
        ensures
            ({
                let code = spec_object_type_code(object_type);
                if spec_has_object(self@, object_id, code) {
                    r matches Ok(o) && *o == self@[spec_object_index(self@, object_id, code)]
                } else {
                    r == Err::<&Object, ApiError>(ApiError::NotFound)
                }
            }),
    {
        match self.find_index(object_id, object_type.code()) {
            Some(i) => Ok(&self.records[i]),
            None => Err(ApiError::NotFound),
        }
    }
}

/// The tag list with every tag of one object removed; order of the rest
/// kept.
pub open spec fn spec_remove_tags_of(s: Seq<Tag>, id: u128) -> Seq<Tag>
    decreases s.len(),
{
    if s.len() == 0 {
        s
    } else if s.last().object == id {
        spec_remove_tags_of(s.drop_last(), id)
    } else {
        spec_remove_tags_of(s.drop_last(), id).push(s.last())
    }
}

/// The tag records an upload attaches to an object, in upload order.
pub open spec fn spec_new_tags(names: Seq<String>, id: u128) -> Seq<Tag> {
    Seq::new(names.len(), |i: int| (Tag { object: id, tag: names[i] }))
}

/// Replaces every tag of `id` with the upload's tags.
fn replace_tags(tags: &mut Vec<Tag>, id: u128, names: &Vec<String>)
    ensures
        final(tags)@ == spec_remove_tags_of(old(tags)@, id) + spec_new_tags(names@, id),
{
    let mut kept: Vec<Tag> = Vec::new();
    let n = tags.len();
    let mut i: usize = 0;
    proof {
        assert(old(tags)@.subrange(0, 0) =~= Seq::<Tag>::empty());
    }
    while i < n
        invariant
            n == tags@.len(),
            tags@ == old(tags)@,
            0 <= i <= n,
            kept@ == spec_remove_tags_of(tags@.subrange(0, i as int), id),
        decreases n - i,
    {
        proof {
            assert(tags@.subrange(0, i + 1).drop_last() =~= tags@.subrange(0, i as int));
            assert(tags@.subrange(0, i + 1).last() == tags@[i as int]);
        }
        let t = &tags[i];
        if t.object != id {
            kept.push(Tag { object: t.object, tag: t.tag.clone() });
        }
        i = i + 1;
    }
    proof {
        assert(tags@.subrange(0, n as int) =~= tags@);
    }
    append_tags(&mut kept, id, names);
    *tags = kept;
}

/// Appends the upload's tags for `id`.
fn append_tags(tags: &mut Vec<Tag>, id: u128, names: &Vec<String>)
    ensures
        final(tags)@ == old(tags)@ + spec_new_tags(names@, id),
{
    let n = names.len();
    let mut i: usize = 0;
    proof {
        assert(old(tags)@ + spec_new_tags(names@, id).subrange(0, 0) =~= old(tags)@);
    }
    while i < n
        invariant
            n == names@.len(),
            0 <= i <= n,
            tags@ == old(tags)@ + spec_new_tags(names@, id).subrange(0, i as int),
        decreases n - i,
    {
        tags.push(Tag { object: id, tag: names[i].clone() });
        proof {
            assert(tags@ =~= old(tags)@ + spec_new_tags(names@, id).subrange(0, i + 1));
        }
        i = i + 1;
    }
    proof {
        assert(spec_new_tags(names@, id).subrange(0, n as int) =~= spec_new_tags(names@, id));
    }
}

/// Creates a new object record or updates an existing one. Only the
/// creator may update; an update takes the upload's name, description,
/// publicity and license, replaces the object's tags and moves its update
/// instant to `now`, keeping flags, the creation instant, sizes,
/// encryption and verification state; a creation stores the upload in
/// full, unverified, with both timestamps at `now` and sizes zero. The
/// object's byte stream is untouched: it belongs to the storage
/// collaborator.
pub fn create_or_update_object(
    objects: &mut ObjectStore,
    licenses: &mut LicenseStore,
    tags: &mut Vec<Tag>,
    object_type: ObjectType,
    object_id: u128,
    user_id: u128,
    upload: ObjectUpload,
    now: u64,
) -> (r: Result<(), ApiError>)
    requires
        old(objects).wf(),
        old(licenses).wf(),
        old(licenses)@.len() < 0x7FFFFFFF,
    ensures
        final(objects).wf(),
        final(licenses).wf(),
        ({
            let code = spec_object_type_code(object_type);
            let lic = match spec_find_license(old(licenses)@, upload.license@) {
                Some(l) => l,
                None => old(licenses)@.len() as i32,
            };
            if spec_has_object(old(objects)@, object_id, code) {
                let idx = spec_object_index(old(objects)@, object_id, code);
                let o = old(objects)@[idx];
                if o.creator != user_id {
                    r == Err::<(), ApiError>(ApiError::Forbidden) && final(objects)@ == old(
                        objects,
                    )@ && final(licenses)@ == old(licenses)@ && final(tags)@ == old(tags)@
                } else {
                    &&& r is Ok
                    &&& final(objects)@.len() == old(objects)@.len()
                    &&& (forall|k: int|
                        0 <= k < old(objects)@.len() && k != idx ==> final(objects)@[k] == old(
                            objects,
                        )@[k])
                    &&& ({
                        let u = final(objects)@[idx];
                        &&& u.id == o.id
                        &&& u.name == upload.name
                        &&& u.description == upload.description
                        &&& u.publicity == upload.publicity
                        &&& u.license == lic
                        &&& u.flags@ == o.flags@
                        &&& u.updated_at == now
                        &&& u.created_at == o.created_at
                        &&& u.verified == o.verified
                        &&& u.object_size == o.object_size
                        &&& u.image_size == o.image_size
                        &&& u.creator == o.creator
                        &&& u.object_type == o.object_type
                        &&& u.encryption_key@ == o.encryption_key@
                        &&& u.encryption_iv@ == o.encryption_iv@
                    })
                    &&& final(tags)@ == spec_remove_tags_of(old(tags)@, object_id) + spec_new_tags(
                        upload.tags@,
                        object_id,
                    )
                }
            } else {
                &&& r is Ok
                &&& final(objects)@.len() == old(objects)@.len() + 1
                &&& final(objects)@.drop_last() == old(objects)@
                &&& ({
                    let u = final(objects)@.last();
                    &&& u.id == object_id
                    &&& u.name == upload.name
                    &&& u.description == upload.description
                    &&& u.flags@ == Seq::new(upload.flags@.len(), |i: int| Some(upload.flags@[i]))
                    &&& u.updated_at == now
                    &&& u.created_at == now
                    &&& u.verified == false
                    &&& u.object_size == 0
                    &&& u.image_size == 0
                    &&& u.creator == user_id
                    &&& u.object_type == code
                    &&& u.publicity == upload.publicity
                    &&& u.license == lic
                    &&& u.encryption_key@ == upload.encryption_key@
                    &&& u.encryption_iv@ == upload.encryption_iv@
                })
                &&& final(tags)@ == old(tags)@ + spec_new_tags(upload.tags@, object_id)
            }
        }),
{
    let code = object_type.code();
    match objects.find_index(object_id, code) {
        Some(idx) => {
            if objects.records[idx].creator != user_id {
                return Err(ApiError::Forbidden);
            }
            let lic = licenses.resolve_license(&upload.license);
            let o = &objects.records[idx];
            let updated = Object {
                id: o.id,
                name: upload.name,
                description: upload.description,
                flags: crate::copy_vec(&o.flags),
                updated_at: now,
                created_at: o.created_at,
                verified: o.verified,
                object_size: o.object_size,
                image_size: o.image_size,
                creator: o.creator,
                object_type: o.object_type,
                publicity: upload.publicity,
                license: lic,
                encryption_key: crate::copy_vec(&o.encryption_key),
                encryption_iv: crate::copy_vec(&o.encryption_iv),
            };
            objects.records.set(idx, updated);
            replace_tags(tags, object_id, &upload.tags);
            proof {
                assert forall|i: int, j: int|
                    #![trigger objects@[i], objects@[j]]
                    0 <= i < j < objects@.len() implies !(objects@[i].id == objects@[j].id
                    && objects@[i].object_type == objects@[j].object_type) by {
                    assert(objects@[i].id == old(objects)@[i].id);
                    assert(objects@[i].object_type == old(objects)@[i].object_type);
                    assert(objects@[j].id == old(objects)@[j].id);
                    assert(objects@[j].object_type == old(objects)@[j].object_type);
                }
            }
            Ok(())
        },
        None => {
            let lic = licenses.resolve_license(&upload.license);
            let mut flags: Vec<Option<bool>> = Vec::new();
            let nf = upload.flags.len();
            let mut fi: usize = 0;
            while fi < nf
                invariant
                    nf == upload.flags@.len(),
                    0 <= fi <= nf,
                    flags@.len() == fi,
                    forall|j: int| 0 <= j < fi ==> flags@[j] == Some(upload.flags@[j]),
                decreases nf - fi,
            {
                flags.push(Some(upload.flags[fi]));
                fi = fi + 1;
            }
            let created = Object {
                id: object_id,
                name: upload.name,
                description: upload.description,
                flags,
                updated_at: now,
                created_at: now,
                verified: false,
                object_size: 0,
                image_size: 0,
                creator: user_id,
                object_type: code,
                publicity: upload.publicity,
                license: lic,
                encryption_key: upload.encryption_key,
                encryption_iv: upload.encryption_iv,
            };
            objects.records.push(created);
            append_tags(tags, object_id, &upload.tags);
            proof {
                assert(objects@.drop_last() =~= old(objects)@);
                assert(objects@.last().flags@ =~= Seq::new(
                    upload.flags@.len(),
                    |i: int| Some(upload.flags@[i]),
                ));
                assert forall|i: int, j: int|
                    #![trigger objects@[i], objects@[j]]
                    0 <= i < j < objects@.len() implies !(objects@[i].id == objects@[j].id
                    && objects@[i].object_type == objects@[j].object_type) by {
                    assert(objects@[i] == old(objects)@[i]);
                    if j < objects@.len() - 1 {
                        assert(objects@[j] == old(objects)@[j]);
                    } else {
                        assert(!spec_has_object(old(objects)@, object_id, code));
                        if objects@[i].id == object_id && objects@[i].object_type == code {
                            assert(spec_has_object(old(objects)@, object_id, code));
                        }
                    }
                }
            }
            Ok(())
        },
    }
}

/// Marks an object's stored bytes as changed: the record loses its
/// verification and takes a fresh `updated_at`, once the requester is
/// confirmed as its creator. The upload of the bytes themselves is the
/// storage collaborator's work.
fn touch_object(
    objects: &mut ObjectStore,
    object_type: ObjectType,
    object_id: u128,
    user_id: u128,
    now: u64,
) -> (r: Result<(), ApiError>)
    requires
        old(objects).wf(),
    ensures
        final(objects).wf(),
        ({
            let code = spec_object_type_code(object_type);
            if !spec_has_object(old(objects)@, object_id, code) {
                r == Err::<(), ApiError>(ApiError::NotFound) && final(objects)@ == old(objects)@
            } else {
                let idx = spec_object_index(old(objects)@, object_id, code);
                let o = old(objects)@[idx];
                if o.creator != user_id {
                    r == Err::<(), ApiError>(ApiError::Forbidden) && final(objects)@ == old(
                        objects,
                    )@
                } else {
                    &&& r is Ok
                    &&& final(objects)@.len() == old(objects)@.len()
                    &&& (forall|k: int|
                        0 <= k < old(objects)@.len() && k != idx ==> final(objects)@[k] == old(
                            objects,
                        )@[k])
                    &&& ({
                        let u = final(objects)@[idx];
                        &&& u.id == o.id
                        &&& u.name == o.name
                        &&& u.description == o.description
                        &&& u.flags@ == o.flags@
                        &&& u.updated_at == now
                        &&& u.created_at == o.created_at
                        &&& u.verified == false
                        &&& u.object_size == o.object_size
                        &&& u.image_size == o.image_size
                        &&& u.creator == o.creator
                        &&& u.object_type == o.object_type
                        &&& u.publicity == o.publicity
                        &&& u.license == o.license
                        &&& u.encryption_key@ == o.encryption_key@
                        &&& u.encryption_iv@ == o.encryption_iv@
                    })
                }
            }
        }),
{
    match objects.find_index(object_id, object_type.code()) {
        None => Err(ApiError::NotFound),
        Some(idx) => {
            if objects.records[idx].creator != user_id {
                return Err(ApiError::Forbidden);
            }
            let o = &objects.records[idx];
            let touched = Object {
                id: o.id,
                name: o.name.clone(),
                description: o.description.clone(),
                flags: crate::copy_vec(&o.flags),
                updated_at: now,
                created_at: o.created_at,
                verified: false,
                object_size: o.object_size,
                image_size: o.image_size,
                creator: o.creator,
                object_type: o.object_type,
                publicity: o.publicity,
                license: o.license,
                encryption_key: crate::copy_vec(&o.encryption_key),
                encryption_iv: crate::copy_vec(&o.encryption_iv),
            };
            objects.records.set(idx, touched);
            proof {
                assert forall|i: int, j: int|
                    #![trigger objects@[i], objects@[j]]
                    0 <= i < j < objects@.len() implies !(objects@[i].id == objects@[j].id
                    && objects@[i].object_type == objects@[j].object_type) by {
                    assert(objects@[i].id == old(objects)@[i].id);
                    assert(objects@[i].object_type == old(objects)@[i].object_type);
                    assert(objects@[j].id == old(objects)@[j].id);
                    assert(objects@[j].object_type == old(objects)@[j].object_type);
                }
            }
            Ok(())
        },
    }
}

/// The record-side effect of replacing an object's stored file.
pub fn change_object_file(
    objects: &mut ObjectStore,
    object_type: ObjectType,
    object_id: u128,
    user_id: u128,
    now: u64,
) -> (r: Result<(), ApiError>)
    requires
        old(objects).wf(),
    ensures
        final(objects).wf(),
        ({
            let code = spec_object_type_code(object_type);
            let fo = final(objects)@;
            let oo = old(objects)@;
            if !spec_has_object(oo, object_id, code) {
                r == Err::<(), ApiError>(ApiError::NotFound) && fo == oo
            } else {
                let idx = spec_object_index(oo, object_id, code);
                let o = oo[idx];
                if o.creator != user_id {
                    r == Err::<(), ApiError>(ApiError::Forbidden) && fo == oo
                } else {
                    r is Ok && fo[idx].verified == false && fo[idx].updated_at == now && fo[idx].id
                        == o.id && fo.len() == oo.len() && (forall|k: int|
                        0 <= k < oo.len() && k != idx ==> fo[k] == oo[k])
                }
            }
        }),
{
    touch_object(objects, object_type, object_id, user_id, now)
}

/// The record-side effect of replacing an object's preview image.
pub fn change_object_image(
    objects: &mut ObjectStore,
    object_type: ObjectType,
    object_id: u128,
    user_id: u128,
    now: u64,
) -> (r: Result<(), ApiError>)
    requires
        old(objects).wf(),
    ensures
        final(objects).wf(),
        ({
            let code = spec_object_type_code(object_type);
            let fo = final(objects)@;
            let oo = old(objects)@;
            if !spec_has_object(oo, object_id, code) {
                r == Err::<(), ApiError>(ApiError::NotFound) && fo == oo
            } else {
                let idx = spec_object_index(oo, object_id, code);
                let o = oo[idx];
                if o.creator != user_id {
                    r == Err::<(), ApiError>(ApiError::Forbidden) && fo == oo
                } else {
                    r is Ok && fo[idx].verified == false && fo[idx].updated_at == now && fo[idx].id
                        == o.id && fo.len() == oo.len() && (forall|k: int|
                        0 <= k < oo.len() && k != idx ==> fo[k] == oo[k])
                }
            }
        }),
{
    touch_object(objects, object_type, object_id, user_id, now)
}

} // verus!
