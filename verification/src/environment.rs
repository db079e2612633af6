//! The environment variables that configure the program.
use vstd::hash_map::StringHashMap;
use vstd::prelude::*;

verus! {

/// The variable that names the configuration file.
pub const CONFIG_FILE_ENV_VAR: &'static str = "PACKET_FLOW_CONFIG";

/// The environment variables that were found, by name.
pub struct Environment {
    vars: StringHashMap<String>,
}

impl View for Environment {
    type V = Map<Seq<char>, Seq<char>>;

    closed spec fn view(&self) -> Map<Seq<char>, Seq<char>> {
        self.vars@.map_values(|value: String| value@)
    }
}

/// The names of the variables that configure the program.
pub open spec fn variable_names() -> Seq<Seq<char>> {
    seq![
        "PACKET_FLOW_CONFIG"@,
        "PACKET_FLOW_MODE"@,
        "PACKET_FLOW_LOCAL_ADDR"@,
        "PACKET_FLOW_REMOTE_ADDR"@,
        "PACKET_FLOW_RATE"@,
        "PACKET_FLOW_INFLUX_URL"@,
        "PACKET_FLOW_DATABASE"@,
        "PACKET_FLOW_TOKEN"@,
        "PACKET_FLOW_USERNAME"@,
        "PACKET_FLOW_PASSWORD"@,
    ]
}

impl Environment {
    /// An environment in which nothing is set.
    pub fn new() -> (env: Environment)
        ensures
            env@ == Map::<Seq<char>, Seq<char>>::empty(),
    {
        let env = Environment { vars: StringHashMap::new() };
        assert(env@ =~= Map::empty());
        env
    }

    /// Sets a variable.
    pub fn set(&mut self, name: String, value: String)
        ensures
            final(self)@ == old(self)@.insert(name@, value@),
    {
        let ghost before = self@;
        let ghost key = name@;
        let ghost text = value@;
        self.vars.insert(name, value);
        assert(self@ =~= before.insert(key, text));
    }

    /// The value of a variable, if it is set.
    pub fn var(&self, name: &str) -> (value: Option<String>)
        ensures
            value.deep_view() == self@.get(name@),
    {
        match self.vars.get(name) {
            Some(value) => Some(value.clone()),
            None => None,
        }
    }

    /// The path of the configuration file, if the environment names one.
    pub fn config_path(&self) -> (path: Option<String>)
        ensures
            path.deep_view() == self@.get("PACKET_FLOW_CONFIG"@),
    {
        self.var(CONFIG_FILE_ENV_VAR)
    }

    /// The names of the variables to look for.
    pub fn names() -> (names: Vec<&'static str>)
        ensures
            names@.map_values(|name: &'static str| name@) == variable_names(),
    {
        let names: Vec<&'static str> = vec![
            "PACKET_FLOW_CONFIG",
            "PACKET_FLOW_MODE",
            "PACKET_FLOW_LOCAL_ADDR",
            "PACKET_FLOW_REMOTE_ADDR",
            "PACKET_FLOW_RATE",
            "PACKET_FLOW_INFLUX_URL",
            "PACKET_FLOW_DATABASE",
            "PACKET_FLOW_TOKEN",
            "PACKET_FLOW_USERNAME",
            "PACKET_FLOW_PASSWORD",
        ];
        assert(names@.map_values(|name: &'static str| name@) =~= variable_names());
        names
    }
}

/// Every variable that configures the program is looked for, and no other is.
pub proof fn all_variables_are_looked_for(name: Seq<char>)
    ensures
        variable_names().contains(name) <==> {
            ||| name == "PACKET_FLOW_CONFIG"@
            ||| name == "PACKET_FLOW_MODE"@
            ||| name == "PACKET_FLOW_LOCAL_ADDR"@
            ||| name == "PACKET_FLOW_REMOTE_ADDR"@
            ||| name == "PACKET_FLOW_RATE"@
            ||| name == "PACKET_FLOW_INFLUX_URL"@
            ||| name == "PACKET_FLOW_DATABASE"@
            ||| name == "PACKET_FLOW_TOKEN"@
            ||| name == "PACKET_FLOW_USERNAME"@
            ||| name == "PACKET_FLOW_PASSWORD"@
        },
{
    let names = variable_names();
    assert(names[0] == "PACKET_FLOW_CONFIG"@);
    assert(names[1] == "PACKET_FLOW_MODE"@);
    assert(names[2] == "PACKET_FLOW_LOCAL_ADDR"@);
    assert(names[3] == "PACKET_FLOW_REMOTE_ADDR"@);
    assert(names[4] == "PACKET_FLOW_RATE"@);
    assert(names[5] == "PACKET_FLOW_INFLUX_URL"@);
    assert(names[6] == "PACKET_FLOW_DATABASE"@);
    assert(names[7] == "PACKET_FLOW_TOKEN"@);
    assert(names[8] == "PACKET_FLOW_USERNAME"@);
    assert(names[9] == "PACKET_FLOW_PASSWORD"@);
}

} // verus!
