//! Cryptography: classical and quantum-safe algorithms, and execution on
//! encrypted state.
pub mod fhe;
pub mod post_quantum;
pub mod primitives;

use crate::crypto::fhe::FHEConfig;
use crate::crypto::post_quantum::PostQuantumConfig;
use vstd::prelude::*;

verus! {

/// Which cryptography a node uses.
#[derive(Clone, Copy, Debug, PartialEq, Eq, Structural)]
pub struct CryptoManager {
    pub post_quantum_config: Option<PostQuantumConfig>,
    pub fhe_config: Option<FHEConfig>,
}

impl CryptoManager {
    /// Everything, as it is usually configured.
    pub fn new() -> (m: Self)
        ensures
            m.post_quantum_config == Some(PostQuantumConfig::standard()),
            m.fhe_config == Some(FHEConfig::standard()),
    {
        CryptoManager {
            post_quantum_config: Some(PostQuantumConfig::default()),
            fhe_config: Some(FHEConfig::default()),
        }
    }

    /// Everything, with quantum-safe cryptography configured as given.
    pub fn with_post_quantum_config(config: PostQuantumConfig) -> (m: Self)
        ensures
            m.post_quantum_config == Some(config),
            m.fhe_config == Some(FHEConfig::standard()),
    {
        CryptoManager { post_quantum_config: Some(config), fhe_config: Some(FHEConfig::default()) }
    }

    /// Everything, with homomorphic execution configured as given.
    pub fn with_fhe_config(config: FHEConfig) -> (m: Self)
        ensures
            m.post_quantum_config == Some(PostQuantumConfig::standard()),
            m.fhe_config == Some(config),
    {
        CryptoManager {
            post_quantum_config: Some(PostQuantumConfig::default()),
            fhe_config: Some(config),
        }
    }

    /// Classical cryptography only.
    pub fn classical_only() -> (m: Self)
        ensures
            m.post_quantum_config is None,
            m.fhe_config is None,
    {
        CryptoManager { post_quantum_config: None, fhe_config: None }
    }

    /// Whether there is quantum-safe cryptography.
    pub fn has_post_quantum(&self) -> (b: bool)
        ensures
            b == (self.post_quantum_config is Some),
    {
        self.post_quantum_config.is_some()
    }

    /// Whether there is homomorphic execution.
    pub fn has_fhe(&self) -> (b: bool)
        ensures
            b == (self.fhe_config is Some),
    {
        self.fhe_config.is_some()
    }

    /// The names of the protocols.
    pub open spec fn protocol_names(self) -> Seq<Seq<char>> {
        let classical = seq!["Classical"@];
        let quantum = if self.post_quantum_config is Some {
            classical.push("PostQuantum"@).push("Hybrid"@)
        } else {
            classical
        };
        if self.fhe_config is Some {
            quantum.push("FHE"@)
        } else {
            quantum
        }
    }

    /// The names of the protocols.
    pub fn supported_protocols(&self) -> (names: Vec<String>)
        ensures
            crate::ml::texts(names@) == self.protocol_names(),
    {
        let mut names: Vec<String> = Vec::new();
        names.push("Classical".to_owned());
        if self.post_quantum_config.is_some() {
            names.push("PostQuantum".to_owned());
            names.push("Hybrid".to_owned());
        }
        if self.fhe_config.is_some() {
            names.push("FHE".to_owned());
        }
        assert(crate::ml::texts(names@) =~= self.protocol_names());
        names
    }

    /// How homomorphic execution is configured.
    pub fn fhe_config(&self) -> (c: Option<&FHEConfig>)
        ensures
            c is Some <==> self.fhe_config is Some,
            c is Some ==> *c->0 == self.fhe_config->0,
    {
        match &self.fhe_config {
            Some(c) => Some(c),
            None => None,
        }
    }

    /// How quantum-safe cryptography is configured.
    pub fn post_quantum_config(&self) -> (c: Option<&PostQuantumConfig>)
        ensures
            c is Some <==> self.post_quantum_config is Some,
            c is Some ==> *c->0 == self.post_quantum_config->0,
    {
        match &self.post_quantum_config {
            Some(c) => Some(c),
            None => None,
        }
    }
}

impl Default for CryptoManager {
    fn default() -> (m: Self)
        ensures
            m.post_quantum_config == Some(PostQuantumConfig::standard()),
            m.fhe_config == Some(FHEConfig::standard()),
    {
        Self::new()
    }
}

/// Every node has the classical protocol.
pub proof fn classical_is_always_supported(m: CryptoManager)
    ensures
        m.protocol_names().contains("Classical"@),
{
    assert(m.protocol_names()[0] == "Classical"@);
}

/// A node names the quantum-safe protocols where it has that cryptography, homomorphic
/// execution where it has that, and nothing else.
pub proof fn protocols_are_those_configured(m: CryptoManager)
    ensures
        m.protocol_names().contains("PostQuantum"@) <==> m.post_quantum_config is Some,
        m.protocol_names().contains("Hybrid"@) <==> m.post_quantum_config is Some,
        m.protocol_names().contains("FHE"@) <==> m.fhe_config is Some,
        m.protocol_names().len() == 1 + (if m.post_quantum_config is Some {
            2int
        } else {
            0int
        }) + (if m.fhe_config is Some {
            1int
        } else {
            0int
        }),
{
    reveal_strlit("Classical");
    reveal_strlit("PostQuantum");
    reveal_strlit("Hybrid");
    reveal_strlit("FHE");
    assert("Classical"@.len() == 9 && "PostQuantum"@.len() == 11 && "Hybrid"@.len() == 6
        && "FHE"@.len() == 3);
    let names = m.protocol_names();
    if m.post_quantum_config is Some {
        assert(names[1] == "PostQuantum"@ && names[2] == "Hybrid"@);
    }
    if m.fhe_config is Some {
        assert(names[names.len() - 1] == "FHE"@);
    }
}

} // verus!
