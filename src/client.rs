use vstd::prelude::*;

verus! {

/// How the engine should render an environment.
#[derive(Debug)]
pub enum RenderMode {
    /// On screen, for a person to watch.
    Human,
    /// Off screen, as an array of pixels.
    RgbArray,
    /// A mode the engine knows by this name.
    Custom(String),
}

/// The name under which the engine knows a render mode.
pub open spec fn render_mode_name(m: RenderMode) -> Seq<char> {
    match m {
        RenderMode::Human => "human"@,
        RenderMode::RgbArray => "rgb_array"@,
        RenderMode::Custom(s) => s@,
    }
}

impl RenderMode {
    pub fn to_string(&self) -> (r: String)
        ensures
            r@ == render_mode_name(*self),
    {
        match self {
            RenderMode::Human => "human".to_owned(),
            RenderMode::RgbArray => "rgb_array".to_owned(),
            RenderMode::Custom(s) => s.clone(),
        }
    }
}

/// Options for making an environment; all of them are advice that the
/// engine interprets.
#[derive(Debug)]
pub struct MakeOptions {
    pub render_mode: Option<RenderMode>,
    /// Ask the engine to adapt an environment of the older step protocol.
    pub apply_api_compatibility: bool,
    /// Load the environment through the engine's wrapper for environments
    /// of the older library, which takes the real id as a parameter.
    pub use_old_gym_enviroment: bool,
}

impl Default for MakeOptions {
    fn default() -> (r: MakeOptions)
        ensures
            r.render_mode is None,
            !r.apply_api_compatibility,
            !r.use_old_gym_enviroment,
    {
        MakeOptions { render_mode: None, apply_api_compatibility: false, use_old_gym_enviroment: false }
    }
}

/// The registry id of the engine's wrapper for environments of the older
/// library.
pub const OLD_ENVIRONMENT_WRAPPER_ID: &'static str = "GymV26Environment-v0";

/// What to ask the engine for when making an environment.
#[derive(Debug)]
pub struct MakeRequest {
    /// The registry id to instantiate.
    pub id: String,
    /// The named options; `None` leaves an option out of the request.
    pub apply_api_compatibility: Option<bool>,
    pub render_mode: Option<String>,
    /// The id that the wrapper loads, when the wrapper stands in.
    pub env_id: Option<String>,
}

impl MakeRequest {
    /// The request for making `env_id` with `options`. Without options
    /// only the id is sent. With them, the compatibility flag is always
    /// sent, the render mode by its name when one is given, and when the
    /// older library's environment is wanted its wrapper is instantiated
    /// instead, with the id as a parameter.
    pub fn new(env_id: &str, options: &Option<MakeOptions>) -> (r: MakeRequest)
        ensures
            options is None ==> {
                &&& r.id@ == env_id@
                &&& r.apply_api_compatibility is None
                &&& r.render_mode is None
                &&& r.env_id is None
            },
            options matches Some(o) ==> {
                &&& r.apply_api_compatibility == Some(o.apply_api_compatibility)
                &&& o.render_mode is None ==> r.render_mode is None
                &&& o.render_mode matches Some(m) ==> (r.render_mode matches Some(s) && s@
                    == render_mode_name(m))
                &&& o.use_old_gym_enviroment ==> (r.id@ == OLD_ENVIRONMENT_WRAPPER_ID@
                    && (r.env_id matches Some(e) && e@ == env_id@))
                &&& !o.use_old_gym_enviroment ==> r.id@ == env_id@ && r.env_id is None
            },
    {
        match options {
            None => MakeRequest {
                id: env_id.to_owned(),
                apply_api_compatibility: None,
                render_mode: None,
                env_id: None,
            },
            Some(o) => {
                let render_mode = match &o.render_mode {
                    Some(m) => Some(m.to_string()),
                    None => None,
                };
                if o.use_old_gym_enviroment {
                    MakeRequest {
                        id: OLD_ENVIRONMENT_WRAPPER_ID.to_owned(),
                        apply_api_compatibility: Some(o.apply_api_compatibility),
                        render_mode,
                        env_id: Some(env_id.to_owned()),
                    }
                } else {
                    MakeRequest {
                        id: env_id.to_owned(),
                        apply_api_compatibility: Some(o.apply_api_compatibility),
                        render_mode,
                        env_id: None,
                    }
                }
            },
        }
    }
}

} // verus!
