//! The persistent tracking store's semantics: one table of onboarding
//! rows keyed by a monotonic surrogate id, holding the member and
//! tracking-message identifiers as decimal text and the stage as an
//! integer code. This module fixes what every operation on the table
//! means; reading and writing the durable backing file is the embedding
//! program's concern.

use vstd::prelude::*;
use vstd::pervasive::unreached;
use vstd::string::*;
use crate::decimal::decimal_digits;
use crate::decimal::decimal_value;
use crate::decimal::encode_u64;
use crate::decimal::is_valid_u64_text;
use crate::decimal::lemma_decimal_digits_value;
use crate::decimal::parse_u64;
use crate::text::str_eq;

verus! {

/// The onboarding stage a tracked member is in.
#[derive(Debug, Clone, Copy, PartialEq, Eq, Structural)]
pub enum MemberJoinMessageStage {
    NewMember,
    Onboarding,
    Completed,
}

impl MemberJoinMessageStage {
    /// The integer code under which this stage is persisted.
    pub open spec fn spec_code(self) -> int {
        match self {
            MemberJoinMessageStage::NewMember => 0,
            MemberJoinMessageStage::Onboarding => 1,
            MemberJoinMessageStage::Completed => 2,
        }
    }

    /// The persisted integer code of this stage.
    pub fn code(&self) -> (r: i64)
        ensures
            r == self.spec_code(),
    {
        match self {
            MemberJoinMessageStage::NewMember => 0,
            MemberJoinMessageStage::Onboarding => 1,
            MemberJoinMessageStage::Completed => 2,
        }
    }

    /// The persisted code of this stage, as decimal text.
    pub fn to_string(&self) -> (r: String)
        ensures
            r@ == decimal_digits(self.spec_code() as nat),
    {
        let r = match self {
            MemberJoinMessageStage::NewMember => String::from_str("0"),
            MemberJoinMessageStage::Onboarding => String::from_str("1"),
            MemberJoinMessageStage::Completed => String::from_str("2"),
        };
        proof {
            reveal_strlit("0");
            reveal_strlit("1");
            reveal_strlit("2");
            assert(r@ =~= decimal_digits(self.spec_code() as nat));
        }
        r
    }
}

/// The stage that a persisted integer code denotes. Codes outside the
/// three known ones fall back to `NewMember` rather than being rejected.
pub open spec fn stage_from_code(code: int) -> MemberJoinMessageStage {
    if code == 1 {
        MemberJoinMessageStage::Onboarding
    } else if code == 2 {
        MemberJoinMessageStage::Completed
    } else {
        MemberJoinMessageStage::NewMember
    }
}

impl From<i64> for MemberJoinMessageStage {
    fn from(value: i64) -> (r: MemberJoinMessageStage) {
        match value {
            1 => MemberJoinMessageStage::Onboarding,
            2 => MemberJoinMessageStage::Completed,
            _ => MemberJoinMessageStage::NewMember,
        }
    }
}

impl vstd::std_specs::convert::FromSpecImpl<i64> for MemberJoinMessageStage {
    open spec fn obeys_from_spec() -> bool {
        true
    }

    open spec fn from_spec(v: i64) -> MemberJoinMessageStage {
        stage_from_code(v as int)
    }
}

/// Why a store operation failed.
#[derive(Debug, Clone, Copy, PartialEq, Eq, Structural)]
pub enum StoreError {
    /// No row matches the key. A normal outcome for a brand-new member,
    /// not a system error.
    NotFound,
    /// A stored identifier column does not hold valid decimal unsigned
    /// 64-bit text; the row is reported rather than silently truncated.
    MalformedId,
    /// A persisted table image is not one the store could have written:
    /// its surrogate ids are not strictly increasing positive values
    /// below the id ceiling.
    Corrupt,
    /// The surrogate id space is exhausted; no further row can be added.
    Full,
}

/// One onboarding record, as the workflow reads it.
#[derive(Debug, Clone, Copy, PartialEq, Eq, Structural)]
pub struct MemberJoinMessage {
    pub id: i64,
    pub discord_user_id: u64,
    pub message_id: u64,
    pub stage: MemberJoinMessageStage,
}

/// One row as it sits in the backing table: identifiers as text, the
/// stage as its integer code.
#[derive(Debug, Clone)]
pub struct StoredRow {
    pub id: i64,
    pub discord_user_id: String,
    pub message_id: String,
    pub stage: i64,
}

/// The mathematical image of one stored row.
pub struct RowModel {
    pub id: int,
    pub discord_user_id: Seq<char>,
    pub message_id: Seq<char>,
    pub stage: int,
}

/// The image of an executable row.
pub open spec fn row_model(r: StoredRow) -> RowModel {
    RowModel {
        id: r.id as int,
        discord_user_id: r.discord_user_id@,
        message_id: r.message_id@,
        stage: r.stage as int,
    }
}

/// Whether both identifier columns of a row hold valid decimal text.
pub open spec fn row_texts_valid(r: RowModel) -> bool {
    is_valid_u64_text(r.discord_user_id) && is_valid_u64_text(r.message_id)
}

/// A row the store could have written: decodable identifier text and a
/// positive surrogate id.
pub open spec fn row_wf(r: RowModel) -> bool {
    row_texts_valid(r) && 1 <= r.id
}

/// The record that a decodable row denotes.
pub open spec fn decoded_row(r: RowModel) -> MemberJoinMessage {
    MemberJoinMessage {
        id: r.id as i64,
        discord_user_id: decimal_value(r.discord_user_id) as u64,
        message_id: decimal_value(r.message_id) as u64,
        stage: stage_from_code(r.stage),
    }
}

/// Whether a row's member column is the text of the given member id.
pub open spec fn member_matches(r: RowModel, member_id: u64) -> bool {
    r.discord_user_id == decimal_digits(member_id as nat)
}

/// Whether a row's message column is the text of the given message id.
pub open spec fn message_matches(r: RowModel, message_id: u64) -> bool {
    r.message_id == decimal_digits(message_id as nat)
}

/// The first row for the given member, front to back.
pub open spec fn find_member_row(s: Seq<RowModel>, member_id: u64) -> Option<RowModel>
    decreases s.len(),
{
    if s.len() == 0 {
        None
    } else if member_matches(s[0], member_id) {
        Some(s[0])
    } else {
        find_member_row(s.drop_first(), member_id)
    }
}

/// The first row for the given tracking message, front to back.
pub open spec fn find_message_row(s: Seq<RowModel>, message_id: u64) -> Option<RowModel>
    decreases s.len(),
{
    if s.len() == 0 {
        None
    } else if message_matches(s[0], message_id) {
        Some(s[0])
    } else {
        find_message_row(s.drop_first(), message_id)
    }
}

/// The table after the stage of every row with the given surrogate id is
/// set to the given code.
pub open spec fn update_stage_model(s: Seq<RowModel>, id: int, code: int) -> Seq<RowModel> {
    Seq::new(
        s.len(),
        |i: int|
            if s[i].id == id {
                RowModel { stage: code, ..s[i] }
            } else {
                s[i]
            },
    )
}

/// The row that creating a record appends: the next surrogate id, the
/// two identifiers as canonical decimal text, the stage as its code.
pub open spec fn created_row(
    id: int,
    member_id: u64,
    message_id: u64,
    stage: MemberJoinMessageStage,
) -> RowModel {
    RowModel {
        id: id,
        discord_user_id: decimal_digits(member_id as nat),
        message_id: decimal_digits(message_id as nat),
        stage: stage.spec_code(),
    }
}

/// A table image the store could have written: well-formed rows under
/// strictly increasing surrogate ids, with room left for the next one.
pub open spec fn table_image_ok(s: Seq<RowModel>) -> bool {
    &&& forall|i: int| 0 <= i < s.len() ==> row_wf(#[trigger] s[i])
    &&& forall|i: int, j: int| 0 <= i < j < s.len() ==> s[i].id < s[j].id
    &&& s.len() > 0 ==> s.last().id < i64::MAX as int
}

impl MemberJoinMessage {
    /// Decodes one persisted row. Fails loudly when an identifier column
    /// is not valid decimal unsigned 64-bit text; never truncates.
    pub fn from_row(row: &StoredRow) -> (r: Result<MemberJoinMessage, StoreError>)
        ensures
            r == if row_texts_valid(row_model(*row)) {
                Ok::<MemberJoinMessage, StoreError>(decoded_row(row_model(*row)))
            } else {
                Err::<MemberJoinMessage, StoreError>(StoreError::MalformedId)
            },
    {
        let user = match parse_u64(row.discord_user_id.as_str()) {
            Some(u) => u,
            None => {
                return Err(StoreError::MalformedId);
            },
        };
        let message = match parse_u64(row.message_id.as_str()) {
            Some(m) => m,
            None => {
                return Err(StoreError::MalformedId);
            },
        };
        Ok(
            MemberJoinMessage {
                id: row.id,
                discord_user_id: user,
                message_id: message,
                stage: MemberJoinMessageStage::from(row.stage),
            },
        )
    }
}

/// The onboarding tracking table, as a value. Its rows carry strictly
/// increasing surrogate ids below `next_id`, and every identifier column
/// holds canonical decimal text.
#[derive(Debug)]
pub struct TrackingStore {
    rows: Vec<StoredRow>,
    next_id: i64,
}

impl View for TrackingStore {
    type V = Seq<RowModel>;

    closed spec fn view(&self) -> Seq<RowModel> {
        self.rows@.map(|i: int, r: StoredRow| row_model(r))
    }
}

impl TrackingStore {
    /// The surrogate id that the next created record will get.
    pub closed spec fn spec_next_id(self) -> int {
        self.next_id as int
    }

    /// The store's invariant: well-formed rows, strictly increasing ids,
    /// all below the next id, which itself still fits its column.
    pub open spec fn wf(self) -> bool {
        &&& 1 <= self.spec_next_id() <= i64::MAX as int
        &&& forall|i: int|
            0 <= i < self@.len() ==> row_wf(#[trigger] self@[i]) && self@[i].id
                < self.spec_next_id()
        &&& forall|i: int, j: int| 0 <= i < j < self@.len() ==> self@[i].id < self@[j].id
    }

    /// An empty table; the first record will get surrogate id 1.
    pub fn new() -> (r: TrackingStore)
        ensures
            r.wf(),
            r@ == Seq::<RowModel>::empty(),
            r.spec_next_id() == 1,
    {
        let r = TrackingStore { rows: Vec::new(), next_id: 1 };
        proof {
            assert(r@ =~= Seq::<RowModel>::empty());
        }
        r
    }

    /// Rebuilds the store from a persisted table image, in table order.
    /// Succeeds exactly on images the store could have written; a bad
    /// identifier text is `MalformedId`, a bad id column is `Corrupt`.
    pub fn from_rows(rows: Vec<StoredRow>) -> (r: Result<TrackingStore, StoreError>)
        ensures
            ({
                let m = rows@.map(|i: int, x: StoredRow| row_model(x));
                match r {
                    Ok(store) => table_image_ok(m) && store.wf() && store@ == m
                        && store.spec_next_id() == if m.len() == 0 {
                        1int
                    } else {
                        m.last().id + 1
                    },
                    Err(e) => !table_image_ok(m) && (e == StoreError::MalformedId || e
                        == StoreError::Corrupt),
                }
            }),
    {
        let ghost m = rows@.map(|i: int, x: StoredRow| row_model(x));
        let mut i: usize = 0;
        let mut prev_id: i64 = 0;
        while i < rows.len()
            invariant
                m == rows@.map(|k: int, x: StoredRow| row_model(x)),
                i <= rows@.len(),
                m.len() == rows@.len(),
                forall|k: int| 0 <= k < i ==> row_wf(#[trigger] m[k]),
                forall|k: int, l: int| 0 <= k < l < i ==> m[k].id < m[l].id,
                0 <= prev_id < i64::MAX,
                prev_id as int == if i == 0 {
                    0int
                } else {
                    m[i - 1].id
                },
                forall|k: int| 0 <= k < i ==> #[trigger] m[k].id <= prev_id as int,
            decreases rows@.len() - i,
        {
            let row = &rows[i];
            if parse_u64(row.discord_user_id.as_str()).is_none() {
                return Err(StoreError::MalformedId);
            }
            if parse_u64(row.message_id.as_str()).is_none() {
                return Err(StoreError::MalformedId);
            }
            if row.id <= prev_id {
                proof {
                    if i == 0 {
                        assert(!row_wf(m[0]));
                    } else {
                        assert(m[i - 1].id >= m[i as int].id);
                    }
                }
                return Err(StoreError::Corrupt);
            }
            if row.id == i64::MAX {
                proof {
                    if table_image_ok(m) {
                        if i + 1 < m.len() {
                            assert(m[i as int].id < m[m.len() - 1].id);
                        }
                        assert(m.last().id < i64::MAX as int);
                        assert(false);
                    }
                }
                return Err(StoreError::Corrupt);
            }
            prev_id = row.id;
            i = i + 1;
        }
        let store = TrackingStore { rows, next_id: prev_id + 1 };
        proof {
            assert(store@ == m);
            if m.len() > 0 {
                assert(m.last().id == prev_id as int);
            }
        }
        Ok(store)
    }

    /// Appends a new record for the member: next surrogate id, both
    /// identifiers as canonical decimal text, the given stage. Never
    /// checks for an existing row of the same member, so duplicates are
    /// possible. Fails only when the id space is exhausted.
    pub fn push_message(
        &mut self,
        discord_user_id: u64,
        message_id: u64,
        stage: MemberJoinMessageStage,
    ) -> (r: Result<(), StoreError>)
        requires
            old(self).wf(),
        ensures
            final(self).wf(),
            r is Ok <==> old(self).spec_next_id() < i64::MAX as int,
            r is Ok ==> final(self)@ == old(self)@.push(
                created_row(old(self).spec_next_id(), discord_user_id, message_id, stage),
            ) && final(self).spec_next_id() == old(self).spec_next_id() + 1,
            r is Err ==> r == Err::<(), StoreError>(StoreError::Full) && *final(self) == *old(
                self,
            ),
    {
        if self.next_id == i64::MAX {
            return Err(StoreError::Full);
        }
        let id = self.next_id;
        let row = StoredRow {
            id,
            discord_user_id: encode_u64(discord_user_id),
            message_id: encode_u64(message_id),
            stage: stage.code(),
        };
        self.rows.push(row);
        self.next_id = id + 1;
        proof {
            lemma_decimal_digits_value(discord_user_id as nat);
            lemma_decimal_digits_value(message_id as nat);
            assert(self@ =~= old(self)@.push(
                created_row(old(self).spec_next_id(), discord_user_id, message_id, stage),
            ));
        }
        Ok(())
    }

    /// Sets the stage of the row with the record's surrogate id. A row
    /// that is gone is no error: the statement then changes nothing,
    /// exactly as the backing table would report.
    pub fn update_message(
        &mut self,
        record: &MemberJoinMessage,
        stage: MemberJoinMessageStage,
    ) -> (r: Result<(), StoreError>)
        requires
            old(self).wf(),
        ensures
            final(self).wf(),
            r == Ok::<(), StoreError>(()),
            final(self)@ == update_stage_model(old(self)@, record.id as int, stage.spec_code()),
            final(self).spec_next_id() == old(self).spec_next_id(),
    {
        let ghost target = update_stage_model(self@, record.id as int, stage.spec_code());
        let mut updated: Vec<StoredRow> = Vec::new();
        let mut i: usize = 0;
        while i < self.rows.len()
            invariant
                self == old(self),
                target == update_stage_model(self@, record.id as int, stage.spec_code()),
                self@.len() == self.rows@.len(),
                i <= self.rows@.len(),
                updated@.len() == i,
                forall|k: int| 0 <= k < i ==> row_model(#[trigger] updated@[k]) == target[k],
            decreases self.rows@.len() - i,
        {
            let row = &self.rows[i];
            let new_stage: i64 = if row.id == record.id {
                stage.code()
            } else {
                row.stage
            };
            updated.push(
                StoredRow {
                    id: row.id,
                    discord_user_id: row.discord_user_id.clone(),
                    message_id: row.message_id.clone(),
                    stage: new_stage,
                },
            );
            i = i + 1;
        }
        self.rows = updated;
        proof {
            assert(self@ =~= target);
        }
        Ok(())
    }

    /// The first record stored for the given member; `NotFound` when no
    /// row matches, the normal outcome for a brand-new member.
    pub fn get_message_by_discord_user_id(&self, discord_user_id: u64) -> (r: Result<
        MemberJoinMessage,
        StoreError,
    >)
        requires
            self.wf(),
        ensures
            r == match find_member_row(self@, discord_user_id) {
                Some(row) => Ok::<MemberJoinMessage, StoreError>(decoded_row(row)),
                None => Err::<MemberJoinMessage, StoreError>(StoreError::NotFound),
            },
    {
        let target = encode_u64(discord_user_id);
        let mut i: usize = 0;
        proof {
            assert(self@.skip(0) =~= self@);
        }
        while i < self.rows.len()
            invariant
                self.wf(),
                i <= self.rows@.len(),
                self@.len() == self.rows@.len(),
                target@ == decimal_digits(discord_user_id as nat),
                find_member_row(self@, discord_user_id) == find_member_row(
                    self@.skip(i as int),
                    discord_user_id,
                ),
            decreases self.rows@.len() - i,
        {
            proof {
                assert(self@.skip(i as int)[0] == self@[i as int]);
            }
            if str_eq(self.rows[i].discord_user_id.as_str(), target.as_str()) {
                match MemberJoinMessage::from_row(&self.rows[i]) {
                    Ok(rec) => {
                        return Ok(rec);
                    },
                    // a well-formed store holds no undecodable row
                    Err(_) => unreached(),
                }
            }
            proof {
                assert(self@.skip(i as int).drop_first() =~= self@.skip(i + 1));
            }
            i = i + 1;
        }
        Err(StoreError::NotFound)
    }

    /// The first record stored for the given tracking message; `NotFound`
    /// when no row matches.
    pub fn get_message_by_message_id(&self, message_id: u64) -> (r: Result<
        MemberJoinMessage,
        StoreError,
    >)
        requires
            self.wf(),
        ensures
            r == match find_message_row(self@, message_id) {
                Some(row) => Ok::<MemberJoinMessage, StoreError>(decoded_row(row)),
                None => Err::<MemberJoinMessage, StoreError>(StoreError::NotFound),
            },
    {
        let target = encode_u64(message_id);
        let mut i: usize = 0;
        proof {
            assert(self@.skip(0) =~= self@);
        }
        while i < self.rows.len()
            invariant
                self.wf(),
                i <= self.rows@.len(),
                self@.len() == self.rows@.len(),
                target@ == decimal_digits(message_id as nat),
                find_message_row(self@, message_id) == find_message_row(
                    self@.skip(i as int),
                    message_id,
                ),
            decreases self.rows@.len() - i,
        {
            proof {
                assert(self@.skip(i as int)[0] == self@[i as int]);
            }
            if str_eq(self.rows[i].message_id.as_str(), target.as_str()) {
                match MemberJoinMessage::from_row(&self.rows[i]) {
                    Ok(rec) => {
                        return Ok(rec);
                    },
                    // a well-formed store holds no undecodable row
                    Err(_) => unreached(),
                }
            }
            proof {
                assert(self@.skip(i as int).drop_first() =~= self@.skip(i + 1));
            }
            i = i + 1;
        }
        Err(StoreError::NotFound)
    }

    /// The rows as persisted, for writing the table image out.
    pub fn all_rows(&self) -> (r: &Vec<StoredRow>)
        ensures
            r@.map(|i: int, x: StoredRow| row_model(x)) == self@,
    {
        &self.rows
    }
}

/// A member with no stored row is not found, and right after a row for
/// that member is appended — a record is created — the lookup by member
/// finds exactly that row; created with stage `NewMember`, it is read
/// back with stage `NewMember`.
pub proof fn lemma_find_by_member_after_create(s: Seq<RowModel>, row: RowModel, member_id: u64)
    requires
        find_member_row(s, member_id) is None,
        member_matches(row, member_id),
    ensures
        find_member_row(s.push(row), member_id) == Some(row),
    decreases s.len(),
{
    if s.len() == 0 {
        assert(s.push(row)[0] == row);
    } else {
        assert(s.push(row)[0] == s[0]);
        assert(s.push(row).drop_first() =~= s.drop_first().push(row));
        lemma_find_by_member_after_create(s.drop_first(), row, member_id);
    }
}

/// Setting the stage of one surrogate id moves no row and changes no
/// identifier: a lookup by tracking message finds the same row, with the
/// new stage where the id matched.
pub proof fn lemma_update_preserves_find_message(
    s: Seq<RowModel>,
    id: int,
    code: int,
    message_id: u64,
)
    ensures
        match find_message_row(s, message_id) {
            Some(row) => find_message_row(update_stage_model(s, id, code), message_id) == Some(
                if row.id == id {
                    RowModel { stage: code, ..row }
                } else {
                    row
                },
            ),
            None => find_message_row(update_stage_model(s, id, code), message_id) is None,
        },
    decreases s.len(),
{
    let u = update_stage_model(s, id, code);
    if s.len() == 0 {
    } else {
        assert(u[0].message_id == s[0].message_id);
        if message_matches(s[0], message_id) {
        } else {
            lemma_update_preserves_find_message(s.drop_first(), id, code, message_id);
            assert(u.drop_first() =~= update_stage_model(s.drop_first(), id, code));
        }
    }
}

/// Completing and then undoing, through the tracking message: after the
/// stage of the found row is set to `Completed`'s code, lookup by the
/// same message sees `Completed`; after it is then set back to
/// `Onboarding`'s code, lookup sees `Onboarding` again.
pub proof fn lemma_complete_then_undo_round_trip(s: Seq<RowModel>, message_id: u64)
    requires
        find_message_row(s, message_id) is Some,
    ensures
        ({
            let row = find_message_row(s, message_id)->Some_0;
            let completed = update_stage_model(
                s,
                row.id,
                MemberJoinMessageStage::Completed.spec_code(),
            );
            let undone = update_stage_model(
                completed,
                row.id,
                MemberJoinMessageStage::Onboarding.spec_code(),
            );
            &&& find_message_row(completed, message_id) matches Some(c) && decoded_row(c).stage
                == MemberJoinMessageStage::Completed && c.id == row.id
            &&& find_message_row(undone, message_id) matches Some(u) && decoded_row(u).stage
                == MemberJoinMessageStage::Onboarding && u.id == row.id
        }),
{
    let row = find_message_row(s, message_id)->Some_0;
    lemma_update_preserves_find_message(
        s,
        row.id,
        MemberJoinMessageStage::Completed.spec_code(),
        message_id,
    );
    let completed = update_stage_model(s, row.id, MemberJoinMessageStage::Completed.spec_code());
    lemma_update_preserves_find_message(
        completed,
        row.id,
        MemberJoinMessageStage::Onboarding.spec_code(),
        message_id,
    );
}

/// Creating a record is not idempotent: two successive creates for the
/// same member — each appending the row that `push_message` writes on
/// success — leave two more rows than before, both for that member,
/// under distinct surrogate ids.
pub proof fn lemma_create_twice_two_rows(
    before: TrackingStore,
    mid: TrackingStore,
    after: TrackingStore,
    member_id: u64,
    first_message: u64,
    second_message: u64,
    first_stage: MemberJoinMessageStage,
    second_stage: MemberJoinMessageStage,
)
    requires
        mid@ == before@.push(
            created_row(before.spec_next_id(), member_id, first_message, first_stage),
        ),
        mid.spec_next_id() == before.spec_next_id() + 1,
        after@ == mid@.push(
            created_row(mid.spec_next_id(), member_id, second_message, second_stage),
        ),
    ensures
        after@.len() == before@.len() + 2,
        member_matches(after@[after@.len() - 2], member_id),
        member_matches(after@[after@.len() - 1], member_id),
        after@[after@.len() - 2].id != after@[after@.len() - 1].id,
{
    assert(after@[after@.len() - 2] == created_row(
        before.spec_next_id(),
        member_id,
        first_message,
        first_stage,
    ));
}

} // verus!
