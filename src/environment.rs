use crate::descriptor::{describes, descriptor_error, Descriptor};
use crate::error::GymError;
use crate::number::Real;
use crate::payload::{scalar_real, Payload};
use crate::space_template::SpaceTemplate;
use crate::{Action, Observation};
use vstd::prelude::*;

verus! {

/// What a step reports.
#[derive(Debug)]
pub struct State {
    pub observation: Observation,
    pub reward: Real,
    /// The episode has ended.
    pub is_done: bool,
    /// The episode was cut short before it ended.
    pub is_truncated: bool,
}

/// Where a session stands in its life.
#[derive(Clone, Copy, Debug, PartialEq, Eq, Structural)]
pub enum Phase {
    /// Made, not reset yet.
    Created,
    /// Reset at least once.
    Ready,
    /// Closed: nothing more can be done with it.
    Closed,
}

/// The flag a payload holds, if it is one.
pub open spec fn flag_of(p: Payload) -> Option<bool> {
    match p {
        Payload::Flag(b) => Some(b),
        _ => None,
    }
}

/// Why an engine reply to a reset cannot be read against the observation
/// space `s`, or `None` when it can. The reply is the pair of the
/// observation and the engine's side information.
pub open spec fn reset_error(s: SpaceTemplate, reply: Payload) -> Option<GymError> {
    match reply {
        Payload::List(items) => if items.len() < 2 {
            Some(GymError::WrongResetResult)
        } else if !s.decodable(items[0]) {
            Some(GymError::InvalidConversion)
        } else {
            None
        },
        _ => Some(GymError::WrongResetResult),
    }
}

/// Why an engine reply to a step cannot be read against the observation
/// space `s`, or `None` when it can. The reply holds the observation, the
/// reward, whether the episode is done, and, unless the engine speaks the
/// older three-part form, whether it was truncated; anything after that
/// is ignored.
pub open spec fn step_error(s: SpaceTemplate, reply: Payload) -> Option<GymError> {
    match reply {
        Payload::List(items) => if items.len() < 3 {
            Some(GymError::WrongStepResult)
        } else if !s.decodable(items[0]) {
            Some(GymError::InvalidConversion)
        } else if scalar_real(items[1]) is None || flag_of(items[2]) is None || (items.len() > 3
            && flag_of(items[3]) is None) {
            Some(GymError::WrongStepResult)
        } else {
            None
        },
        _ => Some(GymError::WrongStepResult),
    }
}

/// `st` is what a well-formed step reply says.
pub open spec fn step_reads(s: SpaceTemplate, reply: Payload, st: State) -> bool {
    &&& reply matches Payload::List(items)
    &&& s.decodes(items[0], st.observation)
    &&& scalar_real(items[1]) == Some(st.reward)
    &&& flag_of(items[2]) == Some(st.is_done)
    &&& st.is_truncated == (items.len() > 3 && flag_of(items[3]) == Some(true))
}

/// One session with an environment: its two spaces, fixed when it is
/// made, and where it stands. The engine calls themselves are made by the
/// caller, which hands this type what the engine replied.
#[derive(Debug)]
pub struct Environment {
    observation_space: SpaceTemplate,
    action_space: SpaceTemplate,
    phase: Phase,
}

impl Environment {
    #[verifier::type_invariant]
    spec fn inv(self) -> bool {
        self.observation_space.wf() && self.action_space.wf()
    }

    pub closed spec fn obs_space(self) -> SpaceTemplate {
        self.observation_space
    }

    pub closed spec fn act_space(self) -> SpaceTemplate {
        self.action_space
    }

    pub closed spec fn phase_spec(self) -> Phase {
        self.phase
    }

    /// A session over the spaces that the engine describes for its
    /// observations and its actions. The observation space is read first.
    pub fn new(observation: &Descriptor, action: &Descriptor) -> (r: Result<Environment, GymError>)
        ensures
            r is Ok <==> descriptor_error(*observation) is None && descriptor_error(*action) is None,
            r matches Ok(e) ==> {
                &&& describes(*observation, e.obs_space())
                &&& describes(*action, e.act_space())
                &&& e.phase_spec() == Phase::Created
            },
            r matches Err(e) ==> if descriptor_error(*observation) is Some {
                descriptor_error(*observation) == Some(e)
            } else {
                descriptor_error(*action) == Some(e)
            },
    {
        let observation_space = match SpaceTemplate::extract_template(observation) {
            Ok(t) => t,
            Err(e) => {
                return Err(e);
            },
        };
        let action_space = match SpaceTemplate::extract_template(action) {
            Ok(t) => t,
            Err(e) => {
                return Err(e);
            },
        };
        Ok(Environment { observation_space, action_space, phase: Phase::Created })
    }

    /// The space of the actions.
    pub fn action_space(&self) -> (r: &SpaceTemplate)
        ensures
            *r == self.act_space(),
            r.wf(),
    {
        proof {
            use_type_invariant(self);
        }
        &self.action_space
    }

    /// The space of the observations.
    pub fn observation_space(&self) -> (r: &SpaceTemplate)
        ensures
            *r == self.obs_space(),
            r.wf(),
    {
        proof {
            use_type_invariant(self);
        }
        &self.observation_space
    }

    pub fn phase(&self) -> (r: Phase)
        ensures
            r == self.phase_spec(),
    {
        self.phase
    }

    /// The payload to hand the engine for `action`. An action that is not a
    /// value of the action space is refused and never adjusted to fit.
    pub fn action_payload(&self, action: &Action) -> (r: Result<Payload, GymError>)
        ensures
            self.phase_spec() == Phase::Closed ==> r == Err::<Payload, GymError>(GymError::Closed),
            self.phase_spec() != Phase::Closed ==> {
                &&& r is Ok <==> self.act_space().contains(*action)
                &&& r matches Ok(p) ==> crate::space_template::encodes(*action, p)
                &&& r matches Err(e) ==> e == GymError::InvalidAction
            },
    {
        proof {
            use_type_invariant(self);
        }
        if self.phase == Phase::Closed {
            return Err(GymError::Closed);
        }
        self.action_space.encode(action)
    }

    /// Takes the engine's reply to a reset. On success the session is
    /// ready and the observation is a value of the observation space; on
    /// failure nothing changes.
    pub fn reset(&mut self, reply: &Payload) -> (r: Result<Observation, GymError>)
        ensures
            final(self).obs_space() == old(self).obs_space(),
            final(self).act_space() == old(self).act_space(),
            old(self).phase_spec() == Phase::Closed ==> r == Err::<Observation, GymError>(
                GymError::Closed,
            ),
            old(self).phase_spec() != Phase::Closed ==> {
                &&& r is Ok <==> reset_error(old(self).obs_space(), *reply) is None
                &&& r matches Err(e) ==> reset_error(old(self).obs_space(), *reply) == Some(e)
                &&& r matches Ok(v) ==> {
                    &&& reply matches Payload::List(items)
                    &&& old(self).obs_space().decodes(items[0], v)
                    &&& old(self).obs_space().contains(v)
                }
            },
            r is Ok ==> final(self).phase_spec() == Phase::Ready,
            r is Err ==> final(self).phase_spec() == old(self).phase_spec(),
    {
        proof {
            use_type_invariant(&*self);
        }
        if self.phase == Phase::Closed {
            return Err(GymError::Closed);
        }
        let items = match reply {
            Payload::List(items) => items,
            _ => {
                return Err(GymError::WrongResetResult);
            },
        };
        if items.len() < 2 {
            return Err(GymError::WrongResetResult);
        }
        match self.observation_space.extract_data(&items[0]) {
            Ok(v) => {
                proof {
                    crate::space_template::lemma_decoded_value_belongs(
                        self.observation_space,
                        items[0],
                        v,
                    );
                }
                self.phase = Phase::Ready;
                Ok(v)
            },
            Err(e) => Err(e),
        }
    }

    /// Takes the engine's reply to a step, after the action was sent.
    pub fn step(&mut self, reply: &Payload) -> (r: Result<State, GymError>)
        ensures
            *final(self) == *old(self),
            old(self).phase_spec() == Phase::Closed ==> r == Err::<State, GymError>(
                GymError::Closed,
            ),
            old(self).phase_spec() != Phase::Closed ==> {
                &&& r is Ok <==> step_error(old(self).obs_space(), *reply) is None
                &&& r matches Err(e) ==> step_error(old(self).obs_space(), *reply) == Some(e)
                &&& r matches Ok(st) ==> step_reads(old(self).obs_space(), *reply, st)
                    && old(self).obs_space().contains(st.observation)
            },
    {
        proof {
            use_type_invariant(&*self);
        }
        if self.phase == Phase::Closed {
            return Err(GymError::Closed);
        }
        let items = match reply {
            Payload::List(items) => items,
            _ => {
                return Err(GymError::WrongStepResult);
            },
        };
        if items.len() < 3 {
            return Err(GymError::WrongStepResult);
        }
        let observation = match self.observation_space.extract_data(&items[0]) {
            Ok(v) => v,
            Err(e) => {
                return Err(e);
            },
        };
        proof {
            crate::space_template::lemma_decoded_value_belongs(
                self.observation_space,
                items[0],
                observation,
            );
        }
        let reward = match items[1].scalar_real() {
            Some(x) => x,
            None => {
                return Err(GymError::WrongStepResult);
            },
        };
        let is_done = match &items[2] {
            Payload::Flag(b) => *b,
            _ => {
                return Err(GymError::WrongStepResult);
            },
        };
        let is_truncated = if items.len() == 3 {
            false
        } else {
            match &items[3] {
                Payload::Flag(b) => *b,
                _ => {
                    return Err(GymError::WrongStepResult);
                },
            }
        };
        Ok(State { observation, reward, is_done, is_truncated })
    }

    /// Whether the engine may be asked to render: not once the session is
    /// closed.
    pub fn render(&self) -> (r: Result<(), GymError>)
        ensures
            r is Ok <==> self.phase_spec() != Phase::Closed,
            r matches Err(e) ==> e == GymError::Closed,
    {
        if self.phase == Phase::Closed {
            Err(GymError::Closed)
        } else {
            Ok(())
        }
    }

    /// Closes the session. Closing a closed session is allowed and changes
    /// nothing.
    pub fn close(&mut self)
        ensures
            final(self).phase_spec() == Phase::Closed,
            final(self).obs_space() == old(self).obs_space(),
            final(self).act_space() == old(self).act_space(),
    {
        proof {
            use_type_invariant(&*self);
        }
        self.phase = Phase::Closed;
    }
}

} // verus!
