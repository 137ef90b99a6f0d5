//! The part of the relayer's configuration that the commands change: which key
//! signs for which chain.

use vstd::prelude::*;
use vstd::string::StringExecFns;

use crate::identifier::ChainId;

verus! {

/// The configuration of one chain.
#[derive(Debug, PartialEq, Eq)]
pub struct ChainConfig {
    pub id: ChainId,
    /// The name of the key that signs for the chain.
    pub key_name: String,
}

/// What the configuration of a chain says.
pub struct ChainConfigView {
    pub id: Seq<char>,
    pub key_name: Seq<char>,
}

impl View for ChainConfig {
    type V = ChainConfigView;

    open spec fn view(&self) -> ChainConfigView {
        ChainConfigView { id: self.id@, key_name: self.key_name@ }
    }
}

/// The configuration of the relayer.
#[derive(Debug, PartialEq, Eq)]
pub struct Config {
    pub chains: Vec<ChainConfig>,
}

impl View for Config {
    type V = Seq<ChainConfigView>;

    open spec fn view(&self) -> Seq<ChainConfigView> {
        self.chains@.map_values(|c: ChainConfig| c@)
    }
}

/// A chain that the configuration does not have.
#[derive(Debug, PartialEq, Eq)]
pub struct MissingChain {
    pub chain_id: String,
}

impl MissingChain {
    /// The error as it is reported.
    pub fn message(&self) -> (text: String)
        ensures
            text@ == "missing configuration for chain '"@ + self.chain_id@ + "'"@,
    {
        let mut text = "missing configuration for chain '".to_owned();
        text.append(self.chain_id.as_str());
        text.append("'");
        text
    }
}

/// The first chain with the given identifier.
pub open spec fn chain_index(chains: Seq<ChainConfigView>, id: Seq<char>) -> Option<int>
    decreases chains.len(),
{
    if chains.len() == 0 {
        None
    } else if chains[0].id == id {
        Some(0)
    } else {
        match chain_index(chains.skip(1), id) {
            Some(i) => Some(i + 1),
            None => None,
        }
    }
}

/// `chain_index` is the first index at which the identifier stands, if it stands
/// at any.
pub proof fn lemma_chain_index(chains: Seq<ChainConfigView>, id: Seq<char>)
    ensures
        match chain_index(chains, id) {
            Some(i) => {
                &&& 0 <= i < chains.len()
                &&& chains[i].id == id
                &&& forall|j: int| 0 <= j < i ==> (#[trigger] chains[j]).id != id
            },
            None => forall|j: int| 0 <= j < chains.len() ==> (#[trigger] chains[j]).id != id,
        },
    decreases chains.len(),
{
    if chains.len() > 0 && chains[0].id != id {
        let rest = chains.skip(1);
        lemma_chain_index(rest, id);
        assert forall|j: int|
            0 < j < chains.len() && (#[trigger] chains[j]).id == id implies chain_index(
            rest,
            id,
        ) is Some && chain_index(rest, id)->0 < j by {
            assert(rest[j - 1] == chains[j]);
        }
        if let Some(i) = chain_index(rest, id) {
            assert(rest[i] == chains[i + 1]);
        }
    }
}

/// The configuration of a chain, signing with another key if one is given.
pub open spec fn with_key(chain: ChainConfigView, key_name: Option<Seq<char>>) -> ChainConfigView {
    match key_name {
        Some(key) => ChainConfigView { id: chain.id, key_name: key },
        None => chain,
    }
}

/// The configuration in which the first chain with the given identifier signs
/// with the given key, if there is such a chain.
pub open spec fn overridden(
    chains: Seq<ChainConfigView>,
    id: Seq<char>,
    key_name: Option<Seq<char>>,
) -> Option<Seq<ChainConfigView>> {
    match chain_index(chains, id) {
        Some(i) => Some(chains.update(i, with_key(chains[i], key_name))),
        None => None,
    }
}

/// Lets a chain sign with another key if one is given.
pub fn set_key(chain: ChainConfig, key_name: &Option<String>) -> (changed: ChainConfig)
    ensures
        changed@ == with_key(chain@, key_name.deep_view()),
{
    match key_name {
        Some(key) => ChainConfig { id: chain.id, key_name: key.clone() },
        None => chain,
    }
}

/// Lets the first chain with the given identifier sign with another key if one
/// is given. Fails if the configuration has no such chain.
pub fn override_key(config: Config, chain_id: &ChainId, key_name: &Option<String>) -> (result:
    Result<Config, MissingChain>)
    ensures
        match result {
            Ok(changed) => overridden(config@, chain_id@, key_name.deep_view()) == Some(changed@),
            Err(e) => {
                &&& overridden(config@, chain_id@, key_name.deep_view()) is None
                &&& e.chain_id@ == chain_id@
            },
        },
{
    let ghost before = config@;
    let mut changed = config;
    let mut i: usize = 0;
    while i < changed.chains.len()
        invariant
            before == config@,
            changed@ == before,
            i <= changed.chains@.len(),
            forall|j: int| 0 <= j < i ==> (#[trigger] before[j]).id != chain_id@,
        decreases changed.chains.len() - i,
    {
        assert(before[i as int] == changed.chains@[i as int]@);
        if changed.chains[i].id.same_as(chain_id) {
            if let Some(key) = key_name {
                changed.chains[i].key_name = key.clone();
            }
            proof {
                lemma_chain_index(before, chain_id@);
                assert(changed@ =~= before.update(
                    i as int,
                    with_key(before[i as int], key_name.deep_view()),
                ));
            }
            return Ok(changed);
        }
        i = i + 1;
    }
    proof {
        lemma_chain_index(before, chain_id@);
    }
    Err(MissingChain { chain_id: chain_id.as_str().to_owned() })
}

/// A chain that is given a key signs with that key, and is the same chain otherwise;
/// without a key it stays as it is.
pub proof fn law_with_key(chain: ChainConfigView, key: Seq<char>)
    ensures
        with_key(chain, Some(key)).id == chain.id,
        with_key(chain, Some(key)).key_name == key,
        with_key(chain, None) == chain,
{
}

/// Overriding a key changes no identifier, and no key of another chain, nor of a chain
/// behind the first one with the identifier; without a key it changes nothing.
pub proof fn law_override_elsewhere_unchanged(
    chains: Seq<ChainConfigView>,
    id: Seq<char>,
    key_name: Option<Seq<char>>,
)
    ensures
        overridden(chains, id, key_name) matches Some(changed) ==> {
            &&& changed.len() == chains.len()
            &&& forall|i: int|
                0 <= i < chains.len() ==> {
                    &&& (#[trigger] changed[i]).id == chains[i].id
                    &&& chains[i].id != id ==> changed[i] == chains[i]
                    &&& (exists|j: int| 0 <= j < i && (#[trigger] chains[j]).id == id)
                        ==> changed[i] == chains[i]
                }
            &&& key_name is None ==> changed == chains
        },
{
    lemma_chain_index(chains, id);
    if let Some(changed) = overridden(chains, id, key_name) {
        if key_name is None {
            assert(changed =~= chains);
        }
    }
}

/// After an override the first chain with the identifier signs with the given key.
pub proof fn law_override_sets_key(chains: Seq<ChainConfigView>, id: Seq<char>, key: Seq<char>)
    ensures
        overridden(chains, id, Some(key)) matches Some(changed) ==> {
            let i = chain_index(chains, id)->0;
            &&& chain_index(changed, id) == Some(i)
            &&& changed[i].key_name == key
        },
{
    lemma_chain_index(chains, id);
    if let Some(changed) = overridden(chains, id, Some(key)) {
        lemma_chain_index(changed, id);
        let i = chain_index(chains, id)->0;
        assert(changed[i].id == id);
        if let Some(j) = chain_index(changed, id) {
            if j < i {
                assert(changed[j].id == chains[j].id);
            }
        }
    }
}

/// Of two overrides of one chain's key the later one counts.
pub proof fn law_override_last_wins(
    chains: Seq<ChainConfigView>,
    id: Seq<char>,
    first: Option<Seq<char>>,
    second: Seq<char>,
)
    ensures
        overridden(chains, id, first) matches Some(changed) ==> overridden(
            changed,
            id,
            Some(second),
        ) == overridden(chains, id, Some(second)),
{
    lemma_chain_index(chains, id);
    if let Some(changed) = overridden(chains, id, first) {
        let i = chain_index(chains, id)->0;
        match first {
            Some(key) => law_override_sets_key(chains, id, key),
            None => law_override_elsewhere_unchanged(chains, id, first),
        }
        assert(chain_index(changed, id) == Some(i));
        assert(overridden(changed, id, Some(second))->0 =~= overridden(
            chains,
            id,
            Some(second),
        )->0);
    }
}

/// An override succeeds if and only if some chain has the identifier.
pub proof fn law_override_succeeds(
    chains: Seq<ChainConfigView>,
    id: Seq<char>,
    key_name: Option<Seq<char>>,
)
    ensures
        overridden(chains, id, key_name) is Some <==> exists|i: int|
            0 <= i < chains.len() && (#[trigger] chains[i]).id == id,
{
    lemma_chain_index(chains, id);
}

} // verus!
