use vstd::prelude::*;
use crate::error::{CoreError, ErrorKind};

verus! {

/// The lifecycle state of a snapshot row.
#[derive(Clone, Copy, Debug, PartialEq, Eq, Structural)]
pub enum SnapshotState {
    Creating,
    Ready,
    Failed,
    Deleted,
}

/// What a snapshot captures.
#[derive(Clone, Copy, Debug, PartialEq, Eq, Structural)]
pub enum SnapshotMode {
    Full,
    MemoryOnly,
}

impl SnapshotState {
    /// The text stored in the catalog for this state.
    pub fn as_str(&self) -> (r: &'static str)
        ensures
            r@ == spec_state_text(*self),
    {
        match self {
            SnapshotState::Creating => "CREATING",
            SnapshotState::Ready => "READY",
            SnapshotState::Failed => "FAILED",
            SnapshotState::Deleted => "DELETED",
        }
    }

    /// The state whose stored text is `text`, if any.
    pub fn parse(text: &str) -> (r: Option<SnapshotState>)
        ensures
            r is Some ==> spec_state_text(r->Some_0) == text@,
            r is None ==> forall|s: SnapshotState| spec_state_text(s) != text@,
    {
        let t = String::from_str(text);
        let states = [SnapshotState::Creating, SnapshotState::Ready, SnapshotState::Failed, SnapshotState::Deleted];
        let mut i: usize = 0;
        while i < 4
            invariant
                i <= 4,
                t@ == text@,
                states@ == seq![SnapshotState::Creating, SnapshotState::Ready, SnapshotState::Failed, SnapshotState::Deleted],
                forall|k: int| 0 <= k < i ==> spec_state_text(#[trigger] states@[k]) != text@,
            decreases 4 - i,
        {
            let s = states[i];
            let name = String::from_str(s.as_str());
            if name == t {
                return Some(s);
            }
            i = i + 1;
        }
        proof {
            assert forall|s: SnapshotState| spec_state_text(s) != text@ by {
                match s {
                    SnapshotState::Creating => assert(states@[0] == s),
                    SnapshotState::Ready => assert(states@[1] == s),
                    SnapshotState::Failed => assert(states@[2] == s),
                    SnapshotState::Deleted => assert(states@[3] == s),
                }
            }
        }
        None
    }
}

pub open spec fn spec_state_text(s: SnapshotState) -> Seq<char> {
    match s {
        SnapshotState::Creating => "CREATING"@,
        SnapshotState::Ready => "READY"@,
        SnapshotState::Failed => "FAILED"@,
        SnapshotState::Deleted => "DELETED"@,
    }
}

pub open spec fn spec_mode_from_wire(mode: i32) -> SnapshotMode {
    if mode == 2 { SnapshotMode::MemoryOnly } else { SnapshotMode::Full }
}

impl SnapshotMode {
    /// The mode of a wire value: 2 is memory-only; 1, and anything unknown, is full.
    pub fn from_wire(mode: i32) -> (r: SnapshotMode)
        ensures
            r == spec_mode_from_wire(mode),
    {
        if mode == 2 { SnapshotMode::MemoryOnly } else { SnapshotMode::Full }
    }

    /// The mode whose stored text is `text`; anything but `MEMORY_ONLY` reads as full.
    pub fn parse(text: &str) -> (r: SnapshotMode)
        ensures
            text@ == "MEMORY_ONLY"@ <==> r == SnapshotMode::MemoryOnly,
    {
        if String::from_str(text) == String::from_str("MEMORY_ONLY") {
            SnapshotMode::MemoryOnly
        } else {
            SnapshotMode::Full
        }
    }

    /// The text stored in the catalog for this mode.
    pub fn as_str(&self) -> (r: &'static str)
        ensures
            *self == SnapshotMode::Full ==> r@ == "FULL"@,
            *self == SnapshotMode::MemoryOnly ==> r@ == "MEMORY_ONLY"@,
    {
        match self {
            SnapshotMode::Full => "FULL",
            SnapshotMode::MemoryOnly => "MEMORY_ONLY",
        }
    }
}

/// One row of the snapshot catalog. `created_at` orders rows in time.
#[derive(Clone, Debug)]
pub struct SnapshotRow {
    pub snapshot_id: String,
    pub provider: String,
    pub source_sandbox_id: String,
    pub created_at: i64,
    pub mode: SnapshotMode,
    pub name: Option<String>,
    pub parent_snapshot_id: Option<String>,
    pub root_snapshot_id: String,
    pub state: SnapshotState,
    pub size_bytes: u64,
    pub pinned: bool,
    pub last_error: Option<String>,
}

impl SnapshotRow {
    /// A new row in state CREATING: no parent, its own root, no size yet, not pinned.
    pub fn creating(snapshot_id: &str, provider: &str, source_sandbox_id: &str, mode: SnapshotMode, created_at: i64) -> (r: SnapshotRow)
        ensures
            r.snapshot_id@ == snapshot_id@,
            r.provider@ == provider@,
            r.source_sandbox_id@ == source_sandbox_id@,
            r.created_at == created_at,
            r.mode == mode,
            r.name is None,
            r.parent_snapshot_id is None,
            r.root_snapshot_id@ == snapshot_id@,
            r.state == SnapshotState::Creating,
            r.size_bytes == 0,
            !r.pinned,
            r.last_error is None,
    {
        SnapshotRow {
            snapshot_id: String::from_str(snapshot_id),
            provider: String::from_str(provider),
            source_sandbox_id: String::from_str(source_sandbox_id),
            created_at,
            mode,
            name: None,
            parent_snapshot_id: None,
            root_snapshot_id: String::from_str(snapshot_id),
            state: SnapshotState::Creating,
            size_bytes: 0,
            pinned: false,
            last_error: None,
        }
    }

    /// CREATING -> READY with the recorded size. Any other state is left as it is
    /// and refused with `FailedPrecondition`.
    pub fn mark_ready(&mut self, size_bytes: u64) -> (r: Result<(), CoreError>)
        ensures
            old(self).state == SnapshotState::Creating <==> r is Ok,
            r is Ok ==> *final(self) == (SnapshotRow { state: SnapshotState::Ready, size_bytes, ..*old(self) }),
            r is Err ==> *final(self) == *old(self) && r->Err_0.kind == ErrorKind::FailedPrecondition,
    {
        if self.state != SnapshotState::Creating {
            return Err(CoreError::new(ErrorKind::FailedPrecondition, "snapshot is not CREATING"));
        }
        self.state = SnapshotState::Ready;
        self.size_bytes = size_bytes;
        Ok(())
    }

    /// CREATING -> FAILED, recording the error. Any other state is left as it is
    /// and refused with `FailedPrecondition`.
    pub fn mark_failed(&mut self, error: String) -> (r: Result<(), CoreError>)
        ensures
            old(self).state == SnapshotState::Creating <==> r is Ok,
            r is Ok ==> *final(self) == (SnapshotRow { state: SnapshotState::Failed, last_error: Some(error), ..*old(self) }),
            r is Err ==> *final(self) == *old(self) && r->Err_0.kind == ErrorKind::FailedPrecondition,
    {
        if self.state != SnapshotState::Creating {
            return Err(CoreError::new(ErrorKind::FailedPrecondition, "snapshot is not CREATING"));
        }
        self.state = SnapshotState::Failed;
        self.last_error = Some(error);
        Ok(())
    }

    /// READY -> FAILED when recovery finds the snapshot's directory missing or unmarked.
    /// Any other state is left as it is and refused with `FailedPrecondition`.
    pub fn demote(&mut self, error: String) -> (r: Result<(), CoreError>)
        ensures
            old(self).state == SnapshotState::Ready <==> r is Ok,
            r is Ok ==> *final(self) == (SnapshotRow { state: SnapshotState::Failed, last_error: Some(error), ..*old(self) }),
            r is Err ==> *final(self) == *old(self) && r->Err_0.kind == ErrorKind::FailedPrecondition,
    {
        if self.state != SnapshotState::Ready {
            return Err(CoreError::new(ErrorKind::FailedPrecondition, "snapshot is not READY"));
        }
        self.state = SnapshotState::Failed;
        self.last_error = Some(error);
        Ok(())
    }

    /// Any state -> DELETED.
    pub fn mark_deleted(&mut self)
        ensures
            *final(self) == (SnapshotRow { state: SnapshotState::Deleted, ..*old(self) }),
    {
        self.state = SnapshotState::Deleted;
    }
}

} // verus!
