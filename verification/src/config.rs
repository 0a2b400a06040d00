//! The configuration of the package manager: the extension modules to load.
//!
//! The configuration document has one member, `modules`: a list of objects,
//! each with the texts `name` and `dylib_path`.

use crate::document::JsonValue;
use vstd::prelude::*;
use vstd::string::*;

verus! {

/// The content of a configuration file that names no module.
pub const DEFAULT_CONFIG: &'static str = "{\n    \"modules\": []\n}\n";

/// Why a document is not a configuration.
#[derive(Clone, Copy, Debug, PartialEq, Eq)]
pub enum ConfigError {
    /// A list was expected and something else was found, or nothing.
    ExpectedArray,
    /// A module lacks the text `name`.
    MissingName,
    /// A module lacks the text `dylib_path`.
    MissingDylibPath,
}

impl ConfigError {
    /// A sentence for the user.
    pub fn message(&self) -> (text: &'static str)
        ensures
            text@ == match *self {
                ConfigError::ExpectedArray => "Wrong input, expected an array"@,
                ConfigError::MissingName => "Field 'name' is required"@,
                ConfigError::MissingDylibPath => "Field 'dylib_path' is required"@,
            },
    {
        match self {
            ConfigError::ExpectedArray => "Wrong input, expected an array",
            ConfigError::MissingName => "Field 'name' is required",
            ConfigError::MissingDylibPath => "Field 'dylib_path' is required",
        }
    }
}

/// An extension module: its name and the path of its dynamic library.
#[derive(Debug, PartialEq, Eq)]
pub struct Module {
    pub name: String,
    pub dylib_path: String,
}

/// What a module is.
pub struct ModuleView {
    pub name: Seq<char>,
    pub dylib_path: Seq<char>,
}

impl View for Module {
    type V = ModuleView;

    open spec fn view(&self) -> ModuleView {
        ModuleView { name: self.name@, dylib_path: self.dylib_path@ }
    }
}

/// The settings that need no place in the database.
#[derive(Debug, PartialEq, Eq)]
pub struct LpmConfig {
    pub modules: Vec<Module>,
}

/// What a configuration is: its modules, in order.
pub struct LpmConfigView {
    pub modules: Seq<ModuleView>,
}

impl View for LpmConfig {
    type V = LpmConfigView;

    open spec fn view(&self) -> LpmConfigView {
        LpmConfigView { modules: self.modules@.map_values(|m: Module| m@) }
    }
}

impl Module {
    /// The module that `json` describes, or what it lacks.
    pub open spec fn decode(json: JsonValue) -> Result<ModuleView, ConfigError> {
        match json.text_member_spec("name"@) {
            Some(name) => match json.text_member_spec("dylib_path"@) {
                Some(dylib_path) => Ok(ModuleView { name, dylib_path }),
                None => Err(ConfigError::MissingDylibPath),
            },
            None => Err(ConfigError::MissingName),
        }
    }

    /// The modules that `items` describe, or what the first faulty one lacks.
    pub open spec fn decode_items(items: Seq<JsonValue>) -> Result<Seq<ModuleView>, ConfigError>
        decreases items.len(),
    {
        if items.len() == 0 {
            Ok(Seq::empty())
        } else {
            match Self::decode_items(items.drop_last()) {
                Ok(done) => match Self::decode(items.last()) {
                    Ok(m) => Ok(done.push(m)),
                    Err(e) => Err(e),
                },
                Err(e) => Err(e),
            }
        }
    }

    /// The modules that the list `json` describes.
    pub open spec fn decode_array(json: JsonValue) -> Result<Seq<ModuleView>, ConfigError> {
        match json.items_spec() {
            Some(items) => Self::decode_items(items),
            None => Err(ConfigError::ExpectedArray),
        }
    }

    /// Reads one module from an object with the texts `name` and `dylib_path`.
    pub fn from_json_object(json: &JsonValue) -> (r: Result<Module, ConfigError>)
        ensures
            match r {
                Ok(m) => Self::decode(*json) == Ok::<ModuleView, ConfigError>(m@),
                Err(e) => Self::decode(*json) == Err::<ModuleView, ConfigError>(e),
            },
    {
        let name = match json.text_member("name") {
            Some(name) => name,
            None => {
                return Err(ConfigError::MissingName);
            },
        };
        let dylib_path = match json.text_member("dylib_path") {
            Some(dylib_path) => dylib_path,
            None => {
                return Err(ConfigError::MissingDylibPath);
            },
        };
        Ok(Module { name, dylib_path })
    }

    /// Reads a list of modules. Stops at the first item that is no module.
    pub fn from_json_array(json: &JsonValue) -> (r: Result<Vec<Module>, ConfigError>)
        ensures
            match r {
                Ok(modules) => Self::decode_array(*json) == Ok::<Seq<ModuleView>, ConfigError>(
                    modules@.map_values(|m: Module| m@),
                ),
                Err(e) => Self::decode_array(*json) == Err::<Seq<ModuleView>, ConfigError>(e),
            },
    {
        let items = match json.as_items() {
            Some(items) => items,
            None => {
                return Err(ConfigError::ExpectedArray);
            },
        };
        let mut modules: Vec<Module> = Vec::new();
        let mut i: usize = 0;
        assert(items@.take(0) =~= Seq::<JsonValue>::empty());
        assert(modules@.map_values(|m: Module| m@) =~= Seq::<ModuleView>::empty());
        while i < items.len()
            invariant
                i <= items.len(),
                json.items_spec() == Some(items@),
                Self::decode_items(items@.take(i as int)) == Ok::<Seq<ModuleView>, ConfigError>(
                    modules@.map_values(|m: Module| m@),
                ),
            decreases items.len() - i,
        {
            let ghost before = modules@.map_values(|m: Module| m@);
            assert(items@.take(i + 1).drop_last() =~= items@.take(i as int));
            assert(items@.take(i + 1).last() == items@[i as int]);
            match Module::from_json_object(&items[i]) {
                Ok(m) => {
                    modules.push(m);
                    assert(modules@.map_values(|m: Module| m@) =~= before.push(m@));
                },
                Err(e) => {
                    proof {
                        lemma_module_items_fail(items@, i + 1);
                    }
                    return Err(e);
                },
            }
            i = i + 1;
        }
        assert(items@.take(i as int) =~= items@);
        Ok(modules)
    }
}

/// Once a prefix of a list fails, the whole list fails in the same way.
proof fn lemma_module_items_fail(items: Seq<JsonValue>, k: int)
    requires
        0 <= k <= items.len(),
        Module::decode_items(items.take(k)) is Err,
    ensures
        Module::decode_items(items) == Module::decode_items(items.take(k)),
    decreases items.len() - k,
{
    if k == items.len() {
        assert(items.take(k) =~= items);
    } else {
        assert(items.drop_last().take(k) =~= items.take(k));
        lemma_module_items_fail(items.drop_last(), k);
    }
}

impl LpmConfig {
    /// The configuration that `json` describes.
    pub open spec fn decode(json: JsonValue) -> Result<LpmConfigView, ConfigError> {
        match json.member_spec("modules"@) {
            Some(list) => match Module::decode_array(list) {
                Ok(modules) => Ok(LpmConfigView { modules }),
                Err(e) => Err(e),
            },
            None => Err(ConfigError::ExpectedArray),
        }
    }

    /// The configurations that `items` describe, or what is wrong with the first faulty one.
    pub open spec fn decode_items(items: Seq<JsonValue>) -> Result<Seq<LpmConfigView>, ConfigError>
        decreases items.len(),
    {
        if items.len() == 0 {
            Ok(Seq::empty())
        } else {
            match Self::decode_items(items.drop_last()) {
                Ok(done) => match Self::decode(items.last()) {
                    Ok(c) => Ok(done.push(c)),
                    Err(e) => Err(e),
                },
                Err(e) => Err(e),
            }
        }
    }

    /// The configurations that the list `json` describes.
    pub open spec fn decode_array(json: JsonValue) -> Result<Seq<LpmConfigView>, ConfigError> {
        match json.items_spec() {
            Some(items) => Self::decode_items(items),
            None => Err(ConfigError::ExpectedArray),
        }
    }

    /// Reads a configuration from an object whose member `modules` lists the modules.
    pub fn from_json_object(json: &JsonValue) -> (r: Result<LpmConfig, ConfigError>)
        ensures
            match r {
                Ok(c) => Self::decode(*json) == Ok::<LpmConfigView, ConfigError>(c@),
                Err(e) => Self::decode(*json) == Err::<LpmConfigView, ConfigError>(e),
            },
    {
        let list = match json.member("modules") {
            Some(list) => list,
            None => {
                return Err(ConfigError::ExpectedArray);
            },
        };
        match Module::from_json_array(list) {
            Ok(modules) => Ok(LpmConfig { modules }),
            Err(e) => Err(e),
        }
    }

    /// Reads a list of configurations. Stops at the first item that is none.
    pub fn from_json_array(json: &JsonValue) -> (r: Result<Vec<LpmConfig>, ConfigError>)
        ensures
            match r {
                Ok(configs) => Self::decode_array(*json) == Ok::<Seq<LpmConfigView>, ConfigError>(
                    configs@.map_values(|c: LpmConfig| c@),
                ),
                Err(e) => Self::decode_array(*json) == Err::<Seq<LpmConfigView>, ConfigError>(e),
            },
    {
        let items = match json.as_items() {
            Some(items) => items,
            None => {
                return Err(ConfigError::ExpectedArray);
            },
        };
        let mut configs: Vec<LpmConfig> = Vec::new();
        let mut i: usize = 0;
        assert(items@.take(0) =~= Seq::<JsonValue>::empty());
        assert(configs@.map_values(|c: LpmConfig| c@) =~= Seq::<LpmConfigView>::empty());
        while i < items.len()
            invariant
                i <= items.len(),
                json.items_spec() == Some(items@),
                Self::decode_items(items@.take(i as int)) == Ok::<Seq<LpmConfigView>, ConfigError>(
                    configs@.map_values(|c: LpmConfig| c@),
                ),
            decreases items.len() - i,
        {
            let ghost before = configs@.map_values(|c: LpmConfig| c@);
            assert(items@.take(i + 1).drop_last() =~= items@.take(i as int));
            assert(items@.take(i + 1).last() == items@[i as int]);
            match LpmConfig::from_json_object(&items[i]) {
                Ok(c) => {
                    configs.push(c);
                    assert(configs@.map_values(|c: LpmConfig| c@) =~= before.push(c@));
                },
                Err(e) => {
                    proof {
                        lemma_config_items_fail(items@, i + 1);
                    }
                    return Err(e);
                },
            }
            i = i + 1;
        }
        assert(items@.take(i as int) =~= items@);
        Ok(configs)
    }

    /// The document of a configuration that names no module.
    pub fn default_document() -> (json: JsonValue)
        ensures
            Self::decode(json) == Ok::<LpmConfigView, ConfigError>(
                LpmConfigView { modules: Seq::empty() },
            ),
    {
        let mut members: Vec<(String, JsonValue)> = Vec::new();
        members.push((String::from_str("modules"), JsonValue::Array(Vec::new())));
        assert(members@[0].0@ == "modules"@);
        JsonValue::Object(members)
    }
}

/// Once a prefix of a list fails, the whole list fails in the same way.
proof fn lemma_config_items_fail(items: Seq<JsonValue>, k: int)
    requires
        0 <= k <= items.len(),
        LpmConfig::decode_items(items.take(k)) is Err,
    ensures
        LpmConfig::decode_items(items) == LpmConfig::decode_items(items.take(k)),
    decreases items.len() - k,
{
    if k == items.len() {
        assert(items.take(k) =~= items);
    } else {
        assert(items.drop_last().take(k) =~= items.take(k));
        lemma_config_items_fail(items.drop_last(), k);
    }
}

/// What to write where the configuration file is to stand: nothing if a file
/// is there already, else the default content.
pub fn default_config_to_write(already_exists: bool) -> (content: Option<&'static str>)
    ensures
        already_exists ==> content is None,
        !already_exists ==> content == Some(DEFAULT_CONFIG),
{
    if already_exists {
        None
    } else {
        Some(DEFAULT_CONFIG)
    }
}

} // verus!
