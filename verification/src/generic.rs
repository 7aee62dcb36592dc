use vstd::prelude::*;

verus! {

// The fixed text of the generic configuration, cut where the datasets go:
// the home dataset after each of the first three pieces, the root dataset
// after the fourth.
pub const CONFIG_PIECE_0: &'static str = "{\n\t\"comment\":[\"Znappr configuration.\"],\n\t\"jobs\": [\n\t\t{\n\t\t\t\"comment\": [\"HOME Take snapshots at 15, 30, and 45 minutes past the hour, retain 36 (approx. 12 hours)\"],\n\t\t\t\"dataset\": \"";

pub const CONFIG_PIECE_1: &'static str = "\",\n\t\t\t\"recursive\":true,\n\t\t\t\"prefix\": \"QUARTER__\",\n\t\t\t\"postfix\": \"\",\n\t\t\t\"pre_date\": false,\n\t\t\t\"date_format\":\"%Y-%m-%d-%H:%M\",\n\t\t\t\"whens\":\n\t\t\t[\n\t\t\t\t{\n\t\t\t\t\t\"field\": \"minute\",\n\t\t\t\t\t\"value\": \"15,30,45\"\n\t\t\t\t},\n\t\t\t\t{\n\t\t\t\t\t\"field\":\"hour\",\n\t\t\t\t\t\"value\":\"*\"\n\t\t\t\t},\n\t\t\t\t{\n\t\t\t\t\t\"field\":\"day\",\n\t\t\t\t\t\"value\":\"*\"\n\t\t\t\t},\n\t\t\t\t{\n\t\t\t\t\t\"field\":\"day_of_week\",\n\t\t\t\t\t\"value\":\"*\"\n\t\t\t\t},\n\t\t\t\t{\n\t\t\t\t\t\"field\":\"day_of_year\",\n\t\t\t\t\t\"value\":\"*\"\n\t\t\t\t},\n\t\t\t\t{\n\t\t\t\t\t\"field\":\"month\",\n\t\t\t\t\t\"value\":\"*\"\n\t\t\t\t}\n\t\t\t],\n\t\t\t\"purge_rule\": {\"unit\":\"count\", \"value\":\"36\"}\n\t\t},\n\t\t{\n\t\t\t\"comment\": [\"HOME Take snapshots hourly, retain 48 (approx. 2 days)\"],\n\t\t\t\"dataset\": \"";

pub const CONFIG_PIECE_2: &'static str = "\",\n\t\t\t\"recursive\":true,\n\t\t\t\"prefix\": \"HOUR_____\",\n\t\t\t\"postfix\": \"\",\n\t\t\t\"pre_date\": false,\n\t\t\t\"date_format\":\"%Y-%m-%d-%H:00\",\n\t\t\t\"whens\":\n\t\t\t[\n\t\t\t\t{\n\t\t\t\t\t\"field\": \"minute\",\n\t\t\t\t\t\"value\": \"0\"\n\t\t\t\t},\n\t\t\t\t{\n\t\t\t\t\t\"field\":\"hour\",\n\t\t\t\t\t\"value\":\"*\"\n\t\t\t\t},\n\t\t\t\t{\n\t\t\t\t\t\"field\":\"day\",\n\t\t\t\t\t\"value\":\"*\"\n\t\t\t\t},\n\t\t\t\t{\n\t\t\t\t\t\"field\":\"day_of_week\",\n\t\t\t\t\t\"value\":\"*\"\n\t\t\t\t},\n\t\t\t\t{\n\t\t\t\t\t\"field\":\"day_of_year\",\n\t\t\t\t\t\"value\":\"*\"\n\t\t\t\t},\n\t\t\t\t{\n\t\t\t\t\t\"field\":\"month\",\n\t\t\t\t\t\"value\":\"*\"\n\t\t\t\t}\n\t\t\t],\n\t\t\t\"purge_rule\": {\"unit\":\"count\", \"value\":\"48\"}\n\t\t},\n\t\t{\n\t\t\t\"comment\": [\"HOME Take snapshots daily, retain 8 (approx. 1 week)\"],\n\t\t\t\"dataset\": \"";

pub const CONFIG_PIECE_3: &'static str = "\",\n\t\t\t\"recursive\":true,\n\t\t\t\"prefix\": \"DAY______\",\n\t\t\t\"postfix\": \"\",\n\t\t\t\"pre_date\": true,\n\t\t\t\"date_format\":\"%Y-%m-%d\",\n\t\t\t\"whens\":\n\t\t\t[\n\t\t\t\t{\n\t\t\t\t\t\"field\": \"minute\",\n\t\t\t\t\t\"value\": \"0\"\n\t\t\t\t},\n\t\t\t\t{\n\t\t\t\t\t\"field\":\"hour\",\n\t\t\t\t\t\"value\":\"0\"\n\t\t\t\t},\n\t\t\t\t{\n\t\t\t\t\t\"field\":\"day\",\n\t\t\t\t\t\"value\":\"*\"\n\t\t\t\t},\n\t\t\t\t{\n\t\t\t\t\t\"field\":\"day_of_week\",\n\t\t\t\t\t\"value\":\"*\"\n\t\t\t\t},\n\t\t\t\t{\n\t\t\t\t\t\"field\":\"day_of_year\",\n\t\t\t\t\t\"value\":\"*\"\n\t\t\t\t},\n\t\t\t\t{\n\t\t\t\t\t\"field\":\"month\",\n\t\t\t\t\t\"value\":\"*\"\n\t\t\t\t}\n\t\t\t],\n\t\t\t\"purge_rule\": {\"unit\":\"count\", \"value\":\"8\"}\n\t\t},\n\t\t{\n\t\t\t\"comment\": [\"ROOT Take snapshots daily, retain 8 (approx. 1 week)\"],\n\t\t\t\"dataset\": \"";

pub const CONFIG_PIECE_4: &'static str = "\",\n\t\t\t\"recursive\":false,\n\t\t\t\"prefix\": \"DAY______\",\n\t\t\t\"postfix\": \"\",\n\t\t\t\"pre_date\": true,\n\t\t\t\"date_format\":\"%Y-%m-%d\",\n\t\t\t\"whens\":\n\t\t\t[\n\t\t\t\t{\n\t\t\t\t\t\"field\": \"minute\",\n\t\t\t\t\t\"value\": \"0\"\n\t\t\t\t},\n\t\t\t\t{\n\t\t\t\t\t\"field\":\"hour\",\n\t\t\t\t\t\"value\":\"0\"\n\t\t\t\t},\n\t\t\t\t{\n\t\t\t\t\t\"field\":\"day\",\n\t\t\t\t\t\"value\":\"*\"\n\t\t\t\t},\n\t\t\t\t{\n\t\t\t\t\t\"field\":\"day_of_week\",\n\t\t\t\t\t\"value\":\"*\"\n\t\t\t\t},\n\t\t\t\t{\n\t\t\t\t\t\"field\":\"day_of_year\",\n\t\t\t\t\t\"value\":\"*\"\n\t\t\t\t},\n\t\t\t\t{\n\t\t\t\t\t\"field\":\"month\",\n\t\t\t\t\t\"value\":\"*\"\n\t\t\t\t}\n\t\t\t],\n\t\t\t\"purge_rule\": {\"unit\":\"count\", \"value\":\"8\"}\n\t\t}\n\t]\n}\n";

/// Why no generic configuration can be written for a pair of datasets.
#[derive(PartialEq, Eq, Structural, Clone, Copy, Debug)]
pub enum GenericConfigError {
    /// The root dataset holds no `/`, so it is not a `pool/path` name.
    RootNotInPool,
    /// The home dataset holds no `/`, so it is not a `pool/path` name.
    HomeNotInPool,
}

/// Whether `s` holds the character `c`.
pub open spec fn holds_char(s: Seq<char>, c: char) -> bool {
    exists|i: int| 0 <= i < s.len() && s[i] == c
}

/// The generic configuration for `root` (mounted at `/`) and `home` (mounted
/// at `/home`): three jobs on `home` (quarter-hourly, hourly, daily) and a
/// daily job on `root`.
pub open spec fn generic_config_text(root: Seq<char>, home: Seq<char>) -> Seq<char> {
    CONFIG_PIECE_0@ + home + CONFIG_PIECE_1@ + home + CONFIG_PIECE_2@ + home + CONFIG_PIECE_3@
        + root + CONFIG_PIECE_4@
}

/// Where the datasets stand in the generic configuration: the home dataset
/// fills the dataset of each of the three HOME jobs (after the first three
/// fixed pieces) and the root dataset fills that of the last, ROOT, job (after
/// the fourth piece, before the closing one). Changing the root dataset changes
/// nothing before the last job's dataset; changing the home dataset changes
/// nothing from the last job's dataset on.
pub proof fn lemma_generic_config_datasets(root: Seq<char>, home: Seq<char>, other: Seq<char>)
    ensures
        generic_config_text(root, home) == CONFIG_PIECE_0@ + home + CONFIG_PIECE_1@ + home
            + CONFIG_PIECE_2@ + home + CONFIG_PIECE_3@ + root + CONFIG_PIECE_4@,
        ({
            let t = generic_config_text(root, home);
            let homes = CONFIG_PIECE_0@ + home + CONFIG_PIECE_1@ + home + CONFIG_PIECE_2@ + home
                + CONFIG_PIECE_3@;
            &&& t.subrange(CONFIG_PIECE_0@.len() as int, (CONFIG_PIECE_0@.len() + home.len()) as int) == home
            &&& t.subrange(homes.len() as int, (homes.len() + root.len()) as int) == root
            &&& t.skip((homes.len() + root.len()) as int) == CONFIG_PIECE_4@
            &&& generic_config_text(other, home).take(homes.len() as int) == t.take(homes.len() as int)
            &&& {
                let t2 = generic_config_text(root, other);
                t2.skip(t2.len() - root.len() - CONFIG_PIECE_4@.len()) == t.skip(
                    t.len() - root.len() - CONFIG_PIECE_4@.len(),
                )
            }
        }),
{
    let t = generic_config_text(root, home);
    let homes = CONFIG_PIECE_0@ + home + CONFIG_PIECE_1@ + home + CONFIG_PIECE_2@ + home
        + CONFIG_PIECE_3@;
    assert(t =~= homes + root + CONFIG_PIECE_4@);
    assert(t.subrange(CONFIG_PIECE_0@.len() as int, (CONFIG_PIECE_0@.len() + home.len()) as int) =~= home);
    assert(t.subrange(homes.len() as int, (homes.len() + root.len()) as int) =~= root);
    assert(t.skip((homes.len() + root.len()) as int) =~= CONFIG_PIECE_4@);
    let t2 = generic_config_text(other, home);
    assert(t2 =~= homes + other + CONFIG_PIECE_4@);
    assert(t2.take(homes.len() as int) =~= homes);
    assert(t.take(homes.len() as int) =~= homes);
    let homes3 = CONFIG_PIECE_0@ + other + CONFIG_PIECE_1@ + other + CONFIG_PIECE_2@ + other
        + CONFIG_PIECE_3@;
    let t3 = generic_config_text(root, other);
    assert(t3 =~= homes3 + root + CONFIG_PIECE_4@);
    assert(t3.skip(t3.len() - root.len() - CONFIG_PIECE_4@.len()) =~= root + CONFIG_PIECE_4@);
    assert(t.skip(t.len() - root.len() - CONFIG_PIECE_4@.len()) =~= root + CONFIG_PIECE_4@);
}

fn holds_slash(s: &str) -> (r: bool)
    ensures
        r == holds_char(s@, '/'),
{
    let chars = crate::text::chars_of(s);
    let mut i: usize = 0;
    while i < chars.len()
        invariant
            chars@ == s@,
            i <= chars.len(),
            forall|j: int| 0 <= j < i ==> chars@[j] != '/',
        decreases chars.len() - i,
    {
        if chars[i] == '/' {
            return true;
        }
        i = i + 1;
    }
    false
}

/// The generic configuration for the datasets `root` and `home`; an error when
/// the root dataset, then the home dataset, holds no `/`.
pub fn generic_config(root: &str, home: &str) -> (r: Result<String, GenericConfigError>)
    ensures
        match r {
            Ok(text) => holds_char(root@, '/') && holds_char(home@, '/') && text@
                == generic_config_text(root@, home@),
            Err(GenericConfigError::RootNotInPool) => !holds_char(root@, '/'),
            Err(GenericConfigError::HomeNotInPool) => holds_char(root@, '/') && !holds_char(
                home@,
                '/',
            ),
        },
{
    if !holds_slash(root) {
        return Err(GenericConfigError::RootNotInPool);
    }
    if !holds_slash(home) {
        return Err(GenericConfigError::HomeNotInPool);
    }
    let text = CONFIG_PIECE_0.to_owned().concat(home).concat(CONFIG_PIECE_1).concat(home).concat(
        CONFIG_PIECE_2,
    ).concat(home).concat(CONFIG_PIECE_3).concat(root).concat(CONFIG_PIECE_4);
    Ok(text)
}

} // verus!
