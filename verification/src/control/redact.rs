//! Descriptions of requests that never show secret material.

use vstd::prelude::*;
use vstd::string::*;

use crate::text::joined;
use super::model::ControlRequest;
use super::model::SecretLiveChange;

verus! {

/// A name in quotation marks.
pub open spec fn quoted(name: Seq<char>) -> Seq<char> {
    "\""@ + name + "\""@
}

/// The first `n` hosts in quotation marks, with commas between them.
pub open spec fn hosts_text(hosts: Seq<String>, n: nat) -> Seq<char>
    decreases n,
{
    if n == 0 {
        Seq::empty()
    } else if n == 1 {
        quoted(hosts[0]@)
    } else {
        hosts_text(hosts, (n - 1) as nat) + ", "@ + quoted(hosts[n - 1]@)
    }
}

impl SecretLiveChange {
    /// The description of a change: everything but the secret value.
    pub open spec fn description(self) -> Seq<char> {
        match self {
            SecretLiveChange::Rotate { name, .. } => "Rotate { name: "@ + quoted(name@)
                + ", value: [redacted] }"@,
            SecretLiveChange::Remove { name } => "Remove { name: "@ + quoted(name@) + " }"@,
            SecretLiveChange::SetAllowedHosts { name, hosts } => "SetAllowedHosts { name: "@
                + quoted(name@) + ", hosts: ["@ + hosts_text(hosts@, hosts@.len()) + "] }"@,
        }
    }

    /// Describe a change without its secret value.
    pub fn describe(&self) -> (text: String)
        ensures
            text@ == self.description(),
    {
        match self {
            SecretLiveChange::Rotate { name, .. } => {
                let mut text = String::from_str("Rotate { name: ");
                let name = joined("\"", name.as_str(), "\"");
                text.append(name.as_str());
                text.append(", value: [redacted] }");
                text
            },
            SecretLiveChange::Remove { name } => {
                let mut text = String::from_str("Remove { name: ");
                let name = joined("\"", name.as_str(), "\"");
                text.append(name.as_str());
                text.append(" }");
                text
            },
            SecretLiveChange::SetAllowedHosts { name, hosts } => {
                let mut text = String::from_str("SetAllowedHosts { name: ");
                let name = joined("\"", name.as_str(), "\"");
                text.append(name.as_str());
                text.append(", hosts: [");
                let listed = describe_hosts(hosts);
                text.append(listed.as_str());
                text.append("] }");
                text
            },
        }
    }
}

fn describe_hosts(hosts: &Vec<String>) -> (text: String)
    ensures
        text@ == hosts_text(hosts@, hosts@.len()),
{
    let mut text = String::from_str("");
    proof {
        reveal_strlit("");
        assert(text@ =~= Seq::<char>::empty());
    }
    let mut i: usize = 0;
    while i < hosts.len()
        invariant
            i <= hosts@.len(),
            text@ == hosts_text(hosts@, i as nat),
        decreases hosts@.len() - i,
    {
        let host = joined("\"", hosts[i].as_str(), "\"");
        if i > 0 {
            text.append(", ");
        }
        text.append(host.as_str());
        assert(text@ =~= hosts_text(hosts@, (i + 1) as nat));
        i = i + 1;
    }
    text
}

/// The descriptions of the first `n` changes, with commas between them.
pub open spec fn changes_text(changes: Seq<SecretLiveChange>, n: nat) -> Seq<char>
    decreases n,
{
    if n == 0 {
        Seq::empty()
    } else if n == 1 {
        changes[0].description()
    } else {
        changes_text(changes, (n - 1) as nat) + ", "@ + changes[n - 1].description()
    }
}

fn describe_changes(changes: &Vec<SecretLiveChange>) -> (text: String)
    ensures
        text@ == changes_text(changes@, changes@.len()),
{
    let mut text = String::from_str("");
    proof {
        reveal_strlit("");
        assert(text@ =~= Seq::<char>::empty());
    }
    let mut i: usize = 0;
    while i < changes.len()
        invariant
            i <= changes@.len(),
            text@ == changes_text(changes@, i as nat),
        decreases changes@.len() - i,
    {
        let change = changes[i].describe();
        if i > 0 {
            text.append(", ");
        }
        text.append(change.as_str());
        assert(text@ =~= changes_text(changes@, (i + 1) as nat));
        i = i + 1;
    }
    text
}

impl<M> ControlRequest<M> {
    /// The name of the operation.
    pub open spec fn operation(self) -> Seq<char> {
        match self {
            ControlRequest::Capabilities => "Capabilities"@,
            ControlRequest::MemoryTarget { .. } => "MemoryTarget"@,
            ControlRequest::MemoryState => "MemoryState"@,
            ControlRequest::CpuTarget { .. } => "CpuTarget"@,
            ControlRequest::CpuState => "CpuState"@,
            ControlRequest::SecretsUpdate { .. } => "SecretsUpdate"@,
            ControlRequest::CheckpointCreate { .. } => "CheckpointCreate"@,
            ControlRequest::DiskCheckpointCreate { .. } => "DiskCheckpointCreate"@,
            ControlRequest::BranchCreate { .. } => "BranchCreate"@,
            ControlRequest::BranchCreateMemfd { .. } => "BranchCreateMemfd"@,
            ControlRequest::DiskCompact { .. } => "DiskCompact"@,
            ControlRequest::RootDiskGrow { .. } => "RootDiskGrow"@,
            ControlRequest::Pause => "Pause"@,
            ControlRequest::PauseWithGuestFlush { .. } => "PauseWithGuestFlush"@,
            ControlRequest::Resume => "Resume"@,
            ControlRequest::PauseState => "PauseState"@,
        }
    }

    /// The description of a request: its operation and, for a batch of secret changes, the changes.
    pub open spec fn description(self) -> Seq<char> {
        match self {
            ControlRequest::SecretsUpdate { changes } => self.operation() + " { changes: ["@
                + changes_text(changes@, changes@.len()) + "] }"@,
            _ => self.operation(),
        }
    }

    fn operation_name(&self) -> (name: &'static str)
        ensures
            name@ == self.operation(),
    {
        match self {
            ControlRequest::Capabilities => "Capabilities",
            ControlRequest::MemoryTarget { .. } => "MemoryTarget",
            ControlRequest::MemoryState => "MemoryState",
            ControlRequest::CpuTarget { .. } => "CpuTarget",
            ControlRequest::CpuState => "CpuState",
            ControlRequest::SecretsUpdate { .. } => "SecretsUpdate",
            ControlRequest::CheckpointCreate { .. } => "CheckpointCreate",
            ControlRequest::DiskCheckpointCreate { .. } => "DiskCheckpointCreate",
            ControlRequest::BranchCreate { .. } => "BranchCreate",
            ControlRequest::BranchCreateMemfd { .. } => "BranchCreateMemfd",
            ControlRequest::DiskCompact { .. } => "DiskCompact",
            ControlRequest::RootDiskGrow { .. } => "RootDiskGrow",
            ControlRequest::Pause => "Pause",
            ControlRequest::PauseWithGuestFlush { .. } => "PauseWithGuestFlush",
            ControlRequest::Resume => "Resume",
            ControlRequest::PauseState => "PauseState",
        }
    }

    /// Describe a request without any secret value.
    pub fn describe(&self) -> (text: String)
        ensures
            text@ == self.description(),
    {
        let mut text = String::from_str(self.operation_name());
        if let ControlRequest::SecretsUpdate { changes } = self {
            text.append(" { changes: [");
            let listed = describe_changes(changes);
            text.append(listed.as_str());
            text.append("] }");
        }
        text
    }
}

/// Two changes are the same but for the secret value that they carry.
pub open spec fn same_but_value(a: SecretLiveChange, b: SecretLiveChange) -> bool {
    match (a, b) {
        (
            SecretLiveChange::Rotate { name: one, .. },
            SecretLiveChange::Rotate { name: other, .. },
        ) => one@ == other@,
        _ => a == b,
    }
}

/// A description tells nothing of secret values: batches that differ in those alone are described
/// alike.
pub proof fn description_hides_secret_values<M>(
    a: ControlRequest<M>,
    b: ControlRequest<M>,
    one: Vec<SecretLiveChange>,
    other: Vec<SecretLiveChange>,
)
    requires
        a == (ControlRequest::<M>::SecretsUpdate { changes: one }),
        b == (ControlRequest::<M>::SecretsUpdate { changes: other }),
        one@.len() == other@.len(),
        forall|i: int| 0 <= i < one@.len() ==> same_but_value(#[trigger] one@[i], other@[i]),
    ensures
        a.description() == b.description(),
{
    lemma_same_texts(one@, other@, one@.len());
}

proof fn lemma_same_texts(one: Seq<SecretLiveChange>, other: Seq<SecretLiveChange>, n: nat)
    requires
        n <= one.len(),
        one.len() == other.len(),
        forall|i: int| 0 <= i < one.len() ==> same_but_value(#[trigger] one[i], other[i]),
    ensures
        changes_text(one, n) == changes_text(other, n),
    decreases n,
{
    if n > 0 {
        assert(same_but_value(one[n - 1], other[n - 1]));
        assert(one[n - 1].description() == other[n - 1].description());
        lemma_same_texts(one, other, (n - 1) as nat);
    }
}

} // verus!
