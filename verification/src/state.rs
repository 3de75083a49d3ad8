//! The engine's store: the live database and the configuration.

use vstd::prelude::*;
use crate::model::MacroData;

verus! {

/// How the host subscribes to the input stream.
#[derive(Debug, Clone, Copy, PartialEq, Eq, Structural)]
pub enum InputMode {
    /// Watch events without being able to withhold them from other programs.
    Observe,
    /// Receive events first, with the power to withhold them.
    Intercept,
}

/// The part of the configuration that the engine depends on.
#[derive(Debug, Clone, Copy, PartialEq, Eq, Structural)]
pub struct ApplicationConfig {
    /// Whether the host subscribes in intercept mode rather than observe mode.
    pub use_input_grab: bool,
}

impl ApplicationConfig {
    /// The configuration to start from, given what the host found in its
    /// store: the stored one, or observe mode if none could be read.
    pub fn read_data(persisted: Option<ApplicationConfig>) -> (config: ApplicationConfig)
        ensures
            persisted is Some ==> config == persisted->0,
            persisted is None ==> !config.use_input_grab,
    {
        match persisted {
            Some(config) => config,
            None => ApplicationConfig { use_input_grab: false },
        }
    }

    /// The one mode in which the host is to subscribe.
    pub fn input_mode(&self) -> (mode: InputMode)
        ensures
            mode == (if self.use_input_grab {
                InputMode::Intercept
            } else {
                InputMode::Observe
            }),
    {
        if self.use_input_grab {
            InputMode::Intercept
        } else {
            InputMode::Observe
        }
    }
}

/// What the engine's store holds. The host keeps one of these for the life
/// of the process, behind whatever lock it shares it with.
#[derive(Debug)]
pub struct MacroDataState {
    pub data: MacroData,
    pub config: ApplicationConfig,
}

impl MacroDataState {
    /// The store at start-up, given what the host found persisted. Whatever
    /// could not be read is replaced by its empty default, so start-up never
    /// fails for want of stored data.
    pub fn new(data: Option<MacroData>, config: Option<ApplicationConfig>) -> (state: MacroDataState)
        ensures
            data is Some ==> state.data == data->0,
            data is None ==> state.data@.len() == 0,
            config is Some ==> state.config == config->0,
            config is None ==> !state.config.use_input_grab,
    {
        MacroDataState { data: MacroData::read_data(data), config: ApplicationConfig::read_data(config) }
    }
}

/// The configuration in force.
pub fn get_config(state: &MacroDataState) -> (config: ApplicationConfig)
    ensures
        config == state.config,
{
    state.config
}

/// Replaces the configuration wholesale; the database is not touched.
pub fn set_config(state: &mut MacroDataState, config: ApplicationConfig)
    ensures
        final(state).config == config,
        final(state).data == old(state).data,
{
    state.config = config;
}

/// A copy of the database in force.
pub fn get_macros(state: &MacroDataState) -> (data: MacroData)
    ensures
        data@ == state.data@,
{
    state.data.clone()
}

/// Replaces the database wholesale; the configuration is not touched.
pub fn set_macros(state: &mut MacroDataState, frontend_data: MacroData)
    ensures
        final(state).data == frontend_data,
        final(state).config == old(state).config,
{
    state.data = frontend_data;
}

/// Replaces the database from within the host, without a front end asking.
pub fn set_data_write_manually_backend(state: &mut MacroDataState, frontend_data: MacroData)
    ensures
        final(state).data == frontend_data,
        final(state).config == old(state).config,
{
    set_macros(state, frontend_data);
}

} // verus!
