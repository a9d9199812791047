use vstd::prelude::*;

verus! {

/// `toml::ser::Error`, the error of TOML serialization.
#[verifier::external_type_specification]
#[verifier::external_body]
pub struct ExTomlSerError(toml::ser::Error);

/// The pretty TOML text of the load tester's default configuration
/// (`aquatic_udp_load_test::config::Config::default()`) with its number of
/// workers and its run duration (in seconds) set to the given values.
pub uninterp spec fn load_test_config_toml(workers: u8, duration: usize) -> Seq<char>;

/// Builds `aquatic_udp_load_test::config::Config::default()`, sets `workers`
/// and `duration`, and serializes it with `toml::to_string_pretty`. The text
/// is `load_test_config_toml` of the two values. The serializer fails on this
/// configuration only for an unsigned integer beyond `i64`'s range (toml_edit
/// refuses those); every other field of the default configuration is a
/// string, a boolean, a small integer or a float, which it always accepts.
#[verifier::external_body]
pub(crate) fn serialize_load_test_config(workers: u8, duration: usize) -> (r: Result<String, toml::ser::Error>)
    ensures
        r matches Ok(text) ==> text@ == load_test_config_toml(workers, duration),
        duration as int <= i64::MAX ==> r is Ok,
{
    let mut config = aquatic_udp_load_test::config::Config::default();
    config.workers = workers;
    config.duration = duration;
    toml::to_string_pretty(&config)
}

} // verus!
