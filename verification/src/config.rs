//! The declarative configuration and its resolution into a plan.

use vstd::prelude::*;

verus! {

/// The eviction discipline of a cache.
#[derive(Clone, Copy, Debug, PartialEq, Eq, Structural)]
pub enum BackendKind {
    /// Entries stay until the process ends.
    Unbounded,
    /// At most this many entries; the least recently used one leaves first.
    /// A capacity of zero keeps nothing.
    SizeBounded(usize),
    /// An entry counts as absent once the clock, which counts whole seconds,
    /// has moved on by this many since the entry was stored: no entry older
    /// than the lifespan is served.
    TimeBounded(u64),
}

/// Which outputs of the computation are stored.
#[derive(Clone, Copy, Debug, PartialEq, Eq, Structural)]
pub enum ResultPolicy {
    /// Every output.
    All,
    /// Only the success variant of a two-outcome result.
    OkOnly,
    /// Only the present variant of an optional value.
    SomeOnly,
}

/// How the cache key comes from the inputs of a call.
#[derive(Clone, Debug, PartialEq, Eq)]
pub enum KeyStrategy {
    /// The key is the tuple of all inputs, cloned, in their order.
    AllInputs,
    /// The key has the declared type and is the value of the given block,
    /// evaluated with the inputs in scope.
    Custom { key_type: String, convert: String },
}

/// Why a configuration was refused.
#[derive(Clone, Copy, Debug, PartialEq, Eq, Structural)]
pub enum ConfigError {
    /// Only one of `key` and `convert` was given.
    IncompleteKeySpec,
    /// `key` is not a type.
    InvalidKeyType,
    /// `convert` is not a block.
    InvalidConvert,
    /// More than one of `unbound`, `size` and `time` was given.
    ConflictingBackendSpec,
    /// Both `result` and `option` were given.
    ConflictingResultPolicy,
}

/// The configuration as it is declared: every option is optional.
#[derive(Clone, Debug, PartialEq, Eq)]
pub struct Config {
    /// The name of the cache instance.
    pub name: Option<String>,
    /// Selects the unbounded backend.
    pub unbound: bool,
    /// Selects the size-bounded backend with this capacity.
    pub size: Option<usize>,
    /// Selects the time-bounded backend with this lifespan in seconds.
    pub time: Option<u64>,
    /// The type of a custom cache key; goes with `convert`.
    pub key: Option<String>,
    /// The block that computes a custom cache key; goes with `key`.
    pub convert: Option<String>,
    /// Selects [`ResultPolicy::OkOnly`].
    pub result: bool,
    /// Selects [`ResultPolicy::SomeOnly`].
    pub option: bool,
}

/// What a configuration resolves to.
#[derive(Clone, Debug, PartialEq, Eq)]
pub struct Plan {
    /// The name of the cache instance.
    pub name: String,
    pub backend: BackendKind,
    pub key: KeyStrategy,
    pub policy: ResultPolicy,
}

/// A [`KeyStrategy`] with its texts as sequences of characters.
pub enum KeyStrategyView {
    AllInputs,
    Custom { key_type: Seq<char>, convert: Seq<char> },
}

/// A [`Config`] with its texts as sequences of characters.
pub struct ConfigView {
    pub name: Option<Seq<char>>,
    pub unbound: bool,
    pub size: Option<usize>,
    pub time: Option<u64>,
    pub key: Option<Seq<char>>,
    pub convert: Option<Seq<char>>,
    pub result: bool,
    pub option: bool,
}

/// A [`Plan`] with its texts as sequences of characters.
pub struct PlanView {
    pub name: Seq<char>,
    pub backend: BackendKind,
    pub key: KeyStrategyView,
    pub policy: ResultPolicy,
}

pub open spec fn text_view(text: Option<String>) -> Option<Seq<char>> {
    match text {
        Some(t) => Some(t@),
        None => None,
    }
}

impl View for KeyStrategy {
    type V = KeyStrategyView;

    open spec fn view(&self) -> KeyStrategyView {
        match *self {
            KeyStrategy::AllInputs => KeyStrategyView::AllInputs,
            KeyStrategy::Custom { key_type, convert } => KeyStrategyView::Custom {
                key_type: key_type@,
                convert: convert@,
            },
        }
    }
}

impl View for Config {
    type V = ConfigView;

    open spec fn view(&self) -> ConfigView {
        ConfigView {
            name: text_view(self.name),
            unbound: self.unbound,
            size: self.size,
            time: self.time,
            key: text_view(self.key),
            convert: text_view(self.convert),
            result: self.result,
            option: self.option,
        }
    }
}

impl View for Plan {
    type V = PlanView;

    open spec fn view(&self) -> PlanView {
        PlanView { name: self.name@, backend: self.backend, key: self.key@, policy: self.policy }
    }
}

/// The outcome of a resolution with its texts as sequences of characters.
pub open spec fn outcome_view(r: Result<Plan, ConfigError>) -> Result<PlanView, ConfigError> {
    match r {
        Ok(plan) => Ok(plan@),
        Err(e) => Err(e),
    }
}

/// The uppercase form of a text, as `str::to_uppercase` gives it.
pub uninterp spec fn uppercase_of(text: Seq<char>) -> Seq<char>;

/// Calls `str::to_uppercase`, whose result depends on the text alone and is
/// named [`uppercase_of`].
#[verifier::external_body]
fn to_uppercase(text: &str) -> (upper: String)
    ensures
        upper@ == uppercase_of(text@),
{
    text.to_uppercase()
}

/// How many of the three backend-selecting options are given.
pub open spec fn selectors(unbound: bool, size: Option<usize>, time: Option<u64>) -> nat {
    let by_flag: nat = if unbound { 1 } else { 0 };
    let by_size: nat = if size is Some { 1 } else { 0 };
    let by_time: nat = if time is Some { 1 } else { 0 };
    by_flag + by_size + by_time
}

/// The backend that the three selecting options ask for: none where more
/// than one of them is given, the unbounded one where none is, and otherwise
/// the one that is given.
pub open spec fn backend_of(unbound: bool, size: Option<usize>, time: Option<u64>) -> Option<
    BackendKind,
> {
    if selectors(unbound, size, time) > 1 {
        None
    } else if size is Some {
        Some(BackendKind::SizeBounded(size->0))
    } else if time is Some {
        Some(BackendKind::TimeBounded(time->0))
    } else {
        Some(BackendKind::Unbounded)
    }
}

/// The policy that the two flags ask for: every output when neither is set,
/// none when both are.
pub open spec fn policy_of(result: bool, option: bool) -> Option<ResultPolicy> {
    match (result, option) {
        (false, false) => Some(ResultPolicy::All),
        (true, false) => Some(ResultPolicy::OkOnly),
        (false, true) => Some(ResultPolicy::SomeOnly),
        (true, true) => None,
    }
}

/// The key strategy that the two descriptors ask for: none where only one of
/// them is given, all inputs where neither is, the custom one where both are.
pub open spec fn key_of(key: Option<Seq<char>>, convert: Option<Seq<char>>) -> Option<
    KeyStrategyView,
> {
    if (key is Some) != (convert is Some) {
        None
    } else if key is Some {
        Some(KeyStrategyView::Custom { key_type: key->0, convert: convert->0 })
    } else {
        Some(KeyStrategyView::AllInputs)
    }
}

/// The name of the cache instance: the configured one, or else the name of
/// the computation in uppercase.
pub open spec fn name_of(name: Option<Seq<char>>, computation: Seq<char>) -> Seq<char> {
    match name {
        Some(n) => n,
        None => uppercase_of(computation),
    }
}

/// What a configuration resolves to, given what the syntax checks on a custom
/// key answered. The key descriptors are judged first, then the backend, then
/// the policy; the first fault decides the error.
pub open spec fn resolve_spec(
    config: ConfigView,
    computation: Seq<char>,
    key_type_ok: bool,
    convert_ok: bool,
) -> Result<PlanView, ConfigError> {
    let key = key_of(config.key, config.convert);
    let backend = backend_of(config.unbound, config.size, config.time);
    let policy = policy_of(config.result, config.option);
    if key is None {
        Err(ConfigError::IncompleteKeySpec)
    } else if key->0 is Custom && !key_type_ok {
        Err(ConfigError::InvalidKeyType)
    } else if key->0 is Custom && !convert_ok {
        Err(ConfigError::InvalidConvert)
    } else if backend is None {
        Err(ConfigError::ConflictingBackendSpec)
    } else if policy is None {
        Err(ConfigError::ConflictingResultPolicy)
    } else {
        Ok(
            PlanView {
                name: name_of(config.name, computation),
                backend: backend->0,
                key: key->0,
                policy: policy->0,
            },
        )
    }
}

/// What is said of each refusal.
pub open spec fn message_of(error: ConfigError) -> Seq<char> {
    match error {
        ConfigError::IncompleteKeySpec => {
            "key and convert arguments must be used together or not at all"@
        },
        ConfigError::InvalidKeyType => "unable to parse cache key type"@,
        ConfigError::InvalidConvert => "unable to parse key convert block"@,
        ConfigError::ConflictingBackendSpec => {
            "cache types (unbound, size, or time) are mutually exclusive"@
        },
        ConfigError::ConflictingResultPolicy => {
            "the result and option attributes are mutually exclusive"@
        },
    }
}

impl ConfigError {
    /// What to say of this refusal.
    pub fn message(self) -> (text: &'static str)
        ensures
            text@ == message_of(self),
    {
        match self {
            ConfigError::IncompleteKeySpec => {
                "key and convert arguments must be used together or not at all"
            },
            ConfigError::InvalidKeyType => "unable to parse cache key type",
            ConfigError::InvalidConvert => "unable to parse key convert block",
            ConfigError::ConflictingBackendSpec => {
                "cache types (unbound, size, or time) are mutually exclusive"
            },
            ConfigError::ConflictingResultPolicy => {
                "the result and option attributes are mutually exclusive"
            },
        }
    }
}

impl Default for Config {
    /// The configuration with no option given.
    fn default() -> (config: Config)
        ensures
            config@ == Config::empty(),
    {
        Config::new()
    }
}

impl Config {
    /// The view of the configuration with no option given.
    pub open spec fn empty() -> ConfigView {
        ConfigView {
            name: None,
            unbound: false,
            size: None,
            time: None,
            key: None,
            convert: None,
            result: false,
            option: false,
        }
    }

    /// The configuration with no option given.
    pub fn new() -> (config: Config)
        ensures
            config@ == Config::empty(),
    {
        Config {
            name: None,
            unbound: false,
            size: None,
            time: None,
            key: None,
            convert: None,
            result: false,
            option: false,
        }
    }
}

/// Picks the backend from the three selecting options.
pub fn select_backend(unbound: bool, size: Option<usize>, time: Option<u64>) -> (backend: Option<
    BackendKind,
>)
    ensures
        backend == backend_of(unbound, size, time),
{
    match (unbound, size, time) {
        (false, None, None) => Some(BackendKind::Unbounded),
        (true, None, None) => Some(BackendKind::Unbounded),
        (false, Some(capacity), None) => Some(BackendKind::SizeBounded(capacity)),
        (false, None, Some(lifespan)) => Some(BackendKind::TimeBounded(lifespan)),
        _ => None,
    }
}

/// Picks the result policy from the two flags.
pub fn select_policy(result: bool, option: bool) -> (policy: Option<ResultPolicy>)
    ensures
        policy == policy_of(result, option),
{
    if result && option {
        None
    } else if result {
        Some(ResultPolicy::OkOnly)
    } else if option {
        Some(ResultPolicy::SomeOnly)
    } else {
        Some(ResultPolicy::All)
    }
}

/// Picks the key strategy from the two descriptors.
pub fn select_key(key: &Option<String>, convert: &Option<String>) -> (strategy: Option<
    KeyStrategy,
>)
    ensures
        (match strategy {
            Some(s) => Some(s@),
            None => None,
        }) == key_of(text_view(*key), text_view(*convert)),
{
    match (key, convert) {
        (None, None) => Some(KeyStrategy::AllInputs),
        (Some(key_type), Some(convert)) => Some(
            KeyStrategy::Custom { key_type: key_type.clone(), convert: convert.clone() },
        ),
        _ => None,
    }
}

/// Names the cache instance.
pub fn cache_name(name: &Option<String>, computation: &str) -> (cache: String)
    ensures
        cache@ == name_of(text_view(*name), computation@),
{
    match name {
        Some(n) => n.clone(),
        None => to_uppercase(computation),
    }
}

/// Resolves a configuration for the computation of the given name.
///
/// Whether the `key` of a custom key is a type and its `convert` a block is
/// for the caller to find out and to say: `key_type_ok` and `convert_ok` are
/// the two answers. Without a custom key they play no part.
pub fn resolve(
    config: &Config,
    computation: &str,
    key_type_ok: bool,
    convert_ok: bool,
) -> (r: Result<Plan, ConfigError>)
    ensures
        outcome_view(r) == resolve_spec(config@, computation@, key_type_ok, convert_ok),
{
    let key = match select_key(&config.key, &config.convert) {
        Some(key) => key,
        None => {
            return Err(ConfigError::IncompleteKeySpec);
        },
    };
    let custom = match &key {
        KeyStrategy::AllInputs => false,
        KeyStrategy::Custom { .. } => true,
    };
    if custom && !key_type_ok {
        return Err(ConfigError::InvalidKeyType);
    }
    if custom && !convert_ok {
        return Err(ConfigError::InvalidConvert);
    }
    let backend = match select_backend(config.unbound, config.size, config.time) {
        Some(backend) => backend,
        None => {
            return Err(ConfigError::ConflictingBackendSpec);
        },
    };
    let policy = match select_policy(config.result, config.option) {
        Some(policy) => policy,
        None => {
            return Err(ConfigError::ConflictingResultPolicy);
        },
    };
    let name = cache_name(&config.name, computation);
    Ok(Plan { name, backend, key, policy })
}

} // verus!
