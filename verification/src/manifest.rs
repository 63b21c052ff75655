//! The manifest of an external plugin, and the rules that it keeps.

use vstd::prelude::*;

use crate::{split, text};

verus! {

/// What an external plugin says of itself.
#[derive(Debug, Clone, PartialEq, Eq)]
pub struct ExternalPluginManifest {
    pub id: String,
    pub name: String,
    pub version: String,
    pub entry: String,
    pub description: Option<String>,
    pub style: Option<String>,
}

pub struct ManifestModel {
    pub id: Seq<char>,
    pub name: Seq<char>,
    pub version: Seq<char>,
    pub entry: Seq<char>,
    pub description: Option<Seq<char>>,
    pub style: Option<Seq<char>>,
}

impl ExternalPluginManifest {
    pub open spec fn model(self) -> ManifestModel {
        ManifestModel {
            id: self.id@,
            name: self.name@,
            version: self.version@,
            entry: self.entry@,
            description: text::view_of(self.description),
            style: text::view_of(self.style),
        }
    }
}

/// Two checks in turn: the first one that fails decides.
pub open spec fn both(first: Result<(), Seq<char>>, second: Result<(), Seq<char>>) -> Result<
    (),
    Seq<char>,
> {
    match first {
        Ok(_) => second,
        Err(message) => Err(message),
    }
}

/// The check that `passed` is, with the message for when it is not passed.
pub open spec fn check(passed: bool, message: Seq<char>) -> Result<(), Seq<char>> {
    if passed {
        Ok(())
    } else {
        Err(message)
    }
}

/// A field that may be left out has no white space around it.
pub open spec fn optional_string(field: Seq<char>, value: Seq<char>) -> Result<(), Seq<char>> {
    check(
        text::trim(value) == value,
        field + " must not have leading or trailing whitespace"@,
    )
}

/// A required field is not blank and has no white space around it.
pub open spec fn required_string(field: Seq<char>, value: Seq<char>) -> Result<(), Seq<char>> {
    both(
        check(text::trim(value).len() > 0, field + " must not be empty"@),
        optional_string(field, value),
    )
}

/// A part between slashes that does not name a file or directory of its own.
pub open spec fn unnamed_segment(segment: Seq<char>) -> bool {
    segment.len() == 0 || segment == "."@ || segment == ".."@
}

/// The parts of a plugin path between slashes.
pub open spec fn plugin_segments(path: Seq<char>) -> Seq<Seq<char>> {
    split::split(path, split::one_of(seq!['/']))
}

pub open spec fn holds_unnamed_segment(segments: Seq<Seq<char>>) -> bool {
    exists|i: int| 0 <= i < segments.len() && unnamed_segment(#[trigger] segments[i])
}

/// A path inside the plugin: relative, with forward slashes, and with nothing but names.
pub open spec fn plugin_path(field: Seq<char>, value: Seq<char>) -> Result<(), Seq<char>> {
    both(
        check(!"/"@.is_prefix_of(value), field + " must be a relative path"@),
        both(
            check(!value.contains('\\'), field + " must use forward slashes"@),
            both(
                check(
                    !value.contains(':'),
                    field + " must not contain drive letters or ':' characters"@,
                ),
                check(
                    !holds_unnamed_segment(plugin_segments(value)),
                    field + " must not contain empty, '.', or '..' segments"@,
                ),
            ),
        ),
    )
}

/// The name of a script.
pub open spec fn script_name(path: Seq<char>) -> bool {
    ".js"@.is_suffix_of(path) || ".mjs"@.is_suffix_of(path)
}

/// The checks on a plugin's style, where it has one.
pub open spec fn style_outcome(style: Option<Seq<char>>) -> Result<(), Seq<char>> {
    match style {
        Some(style) => both(
            optional_string("style"@, style),
            both(
                plugin_path("style"@, style),
                check(".css"@.is_suffix_of(style), "style must point to a .css file"@),
            ),
        ),
        None => Ok(()),
    }
}

/// The checks on a plugin's description, where it has one.
pub open spec fn description_outcome(description: Option<Seq<char>>) -> Result<(), Seq<char>> {
    match description {
        Some(description) => optional_string("description"@, description),
        None => Ok(()),
    }
}

/// The first rule that a manifest breaks, if it breaks any.
pub open spec fn manifest_outcome(manifest: ManifestModel) -> Result<(), Seq<char>> {
    both(
        required_string("id"@, manifest.id),
        both(
            required_string("name"@, manifest.name),
            both(
                required_string("version"@, manifest.version),
                both(
                    required_string("entry"@, manifest.entry),
                    both(
                        plugin_path("entry"@, manifest.entry),
                        both(
                            check(
                                script_name(manifest.entry),
                                "entry must point to a .js or .mjs file"@,
                            ),
                            both(
                                description_outcome(manifest.description),
                                style_outcome(manifest.style),
                            ),
                        ),
                    ),
                ),
            ),
        ),
    )
}

pub fn validate_required_manifest_string(field: &str, value: &str) -> (outcome: Result<(), String>)
    ensures
        text::check_view(outcome) == required_string(field@, value@),
{
    let trimmed = text::trimmed(value);
    if trimmed.as_str().is_empty() {
        return Err(text::chained(field, " must not be empty"));
    }
    validate_optional_manifest_string(field, value)
}

pub fn validate_optional_manifest_string(field: &str, value: &str) -> (outcome: Result<(), String>)
    ensures
        text::check_view(outcome) == optional_string(field@, value@),
{
    let trimmed = text::trimmed(value);
    if !text::same_text(trimmed.as_str(), value) {
        return Err(text::chained(field, " must not have leading or trailing whitespace"));
    }
    Ok(())
}

fn has_unnamed_segment(segments: &Vec<String>) -> (answer: bool)
    ensures
        answer == holds_unnamed_segment(text::views(segments@)),
{
    let ghost all = text::views(segments@);
    let mut i: usize = 0;
    while i < segments.len()
        invariant
            i <= segments@.len(),
            all == text::views(segments@),
            forall|j: int| 0 <= j < i ==> !unnamed_segment(#[trigger] all[j]),
        decreases segments@.len() - i,
    {
        let segment = segments[i].as_str();
        if segment.is_empty() || text::same_text(segment, ".") || text::same_text(segment, "..") {
            assert(unnamed_segment(all[i as int]));
            return true;
        }
        i = i + 1;
    }
    false
}

pub fn validate_external_plugin_path(field: &str, value: &str) -> (outcome: Result<(), String>)
    ensures
        text::check_view(outcome) == plugin_path(field@, value@),
{
    if text::has_prefix(value, "/") {
        return Err(text::chained(field, " must be a relative path"));
    }
    if text::has_char(value, '\\') {
        return Err(text::chained(field, " must use forward slashes"));
    }
    if text::has_char(value, ':') {
        return Err(text::chained(field, " must not contain drive letters or ':' characters"));
    }
    let separators: Vec<char> = vec!['/'];
    assert(separators@ == seq!['/']);
    let segments = split::split_at_any(value, &separators);
    if has_unnamed_segment(&segments) {
        return Err(text::chained(field, " must not contain empty, '.', or '..' segments"));
    }
    Ok(())
}

/// Accepts a manifest that keeps every rule; else names the first rule that it breaks.
pub fn validate_external_plugin_manifest(manifest: &ExternalPluginManifest) -> (outcome: Result<
    (),
    String,
>)
    ensures
        text::check_view(outcome) == manifest_outcome(manifest.model()),
{
    if let Err(message) = validate_required_manifest_string("id", manifest.id.as_str()) {
        return Err(message);
    }
    if let Err(message) = validate_required_manifest_string("name", manifest.name.as_str()) {
        return Err(message);
    }
    if let Err(message) = validate_required_manifest_string("version", manifest.version.as_str()) {
        return Err(message);
    }
    let entry = manifest.entry.as_str();
    if let Err(message) = validate_required_manifest_string("entry", entry) {
        return Err(message);
    }
    if let Err(message) = validate_external_plugin_path("entry", entry) {
        return Err(message);
    }
    if !text::has_suffix(entry, ".js") && !text::has_suffix(entry, ".mjs") {
        return Err("entry must point to a .js or .mjs file".to_owned());
    }
    if let Some(description) = &manifest.description {
        if let Err(message) = validate_optional_manifest_string(
            "description",
            description.as_str(),
        ) {
            return Err(message);
        }
    }
    if let Some(style) = &manifest.style {
        let style = style.as_str();
        if let Err(message) = validate_optional_manifest_string("style", style) {
            return Err(message);
        }
        if let Err(message) = validate_external_plugin_path("style", style) {
            return Err(message);
        }
        if !text::has_suffix(style, ".css") {
            return Err("style must point to a .css file".to_owned());
        }
    }
    Ok(())
}

/// A path that stays inside the plugin's directory when it is appended to it.
pub open spec fn stays_inside(path: Seq<char>) -> bool {
    &&& path.len() > 0
    &&& path[0] != '/'
    &&& !path.contains('\\')
    &&& !path.contains(':')
    &&& forall|i: int|
        0 <= i < plugin_segments(path).len() ==> !unnamed_segment(#[trigger] plugin_segments(path)[i])
}

/// Whatever an accepted manifest names lies inside the plugin: its entry and its style are
/// relative paths without parent segments, the one to a script and the other to a style sheet.
/// Its identity is not blank.
pub proof fn valid_manifests_stay_inside(manifest: ManifestModel)
    requires
        manifest_outcome(manifest) is Ok,
    ensures
        stays_inside(manifest.entry),
        script_name(manifest.entry),
        manifest.style matches Some(style) ==> stays_inside(style) && ".css"@.is_suffix_of(style),
        text::trim(manifest.id).len() > 0,
        text::trim(manifest.id) == manifest.id,
{
    lemma_plugin_path("entry"@, manifest.entry);
    if let Some(style) = manifest.style {
        lemma_plugin_path("style"@, style);
    }
}

proof fn lemma_plugin_path(field: Seq<char>, path: Seq<char>)
    requires
        plugin_path(field, path) is Ok,
    ensures
        stays_inside(path),
{
    reveal_strlit("/");
    split::lemma_split_not_empty(path, split::one_of(seq!['/']));
    if path.len() == 0 {
        assert(plugin_segments(path)[0].len() == 0);
        assert(unnamed_segment(plugin_segments(path)[0]));
    } else if path[0] == '/' {
        assert("/"@ == path.subrange(0, 1));
    }
}

/// A manifest is accepted exactly where its identifier, name, version and entry are not blank and
/// have no white space around them, its entry is a script inside the plugin, its description has
/// no white space around it, and its style is a style sheet inside the plugin, as far as it has
/// these. Nothing else is asked of it.
pub proof fn manifests_are_accepted_exactly_by_the_rules(manifest: ExternalPluginManifest)
    ensures
        manifest_outcome(manifest.model()) is Ok <==> {
            let inside = |path: Seq<char>|
                {
                    &&& path.len() > 0
                    &&& path[0] != '/'
                    &&& !path.contains('\\')
                    &&& !path.contains(':')
                    &&& !split::split(path, split::one_of(seq!['/'])).contains(Seq::empty())
                    &&& !split::split(path, split::one_of(seq!['/'])).contains("."@)
                    &&& !split::split(path, split::one_of(seq!['/'])).contains(".."@)
                };
            &&& manifest.id@.len() > 0 && text::trim(manifest.id@) == manifest.id@
            &&& manifest.name@.len() > 0 && text::trim(manifest.name@) == manifest.name@
            &&& manifest.version@.len() > 0 && text::trim(manifest.version@) == manifest.version@
            &&& manifest.entry@.len() > 0 && text::trim(manifest.entry@) == manifest.entry@
            &&& inside(manifest.entry@)
            &&& ".js"@.is_suffix_of(manifest.entry@) || ".mjs"@.is_suffix_of(manifest.entry@)
            &&& manifest.description is Some ==> text::trim(manifest.description->0@)
                == manifest.description->0@
            &&& manifest.style is Some ==> {
                &&& text::trim(manifest.style->0@) == manifest.style->0@
                &&& inside(manifest.style->0@)
                &&& ".css"@.is_suffix_of(manifest.style->0@)
            }
        },
{
    text::trimmed_text_has_no_white_border(manifest.id@);
    lemma_paths_stay_inside("entry"@, manifest.entry@);
    if manifest.style is Some {
        lemma_paths_stay_inside("style"@, manifest.style->0@);
    }
}

proof fn lemma_paths_stay_inside(field: Seq<char>, path: Seq<char>)
    ensures
        plugin_path(field, path) is Ok <==> {
            &&& path.len() > 0
            &&& path[0] != '/'
            &&& !path.contains('\\')
            &&& !path.contains(':')
            &&& !split::split(path, split::one_of(seq!['/'])).contains(Seq::empty())
            &&& !split::split(path, split::one_of(seq!['/'])).contains("."@)
            &&& !split::split(path, split::one_of(seq!['/'])).contains(".."@)
        },
{
    let segments = plugin_segments(path);
    reveal_strlit("/");
    if plugin_path(field, path) is Ok {
        lemma_plugin_path(field, path);
        assert(forall|i: int| 0 <= i < segments.len() ==> !unnamed_segment(#[trigger] segments[i]));
    } else if holds_unnamed_segment(segments) {
        let i = choose|i: int| 0 <= i < segments.len() && unnamed_segment(#[trigger] segments[i]);
        if segments[i].len() == 0 {
            assert(segments[i] == Seq::<char>::empty());
        }
    } else if "/"@.is_prefix_of(path) {
        assert(path[0] == "/"@[0]);
    }
}

/// The first rule that a text breaks is named, behind the name of its field: a required text is
/// not blank, and no text has white space around it.
pub proof fn broken_text_rules_are_named(field: Seq<char>, value: Seq<char>)
    ensures
        text::trim(value).len() == 0 ==> required_string(field, value) == Err::<(), Seq<char>>(
            field + " must not be empty"@,
        ),
        text::trim(value).len() > 0 && text::trim(value) != value ==> required_string(field, value)
            == Err::<(), Seq<char>>(field + " must not have leading or trailing whitespace"@),
        text::trim(value).len() > 0 && text::trim(value) == value ==> required_string(field, value)
            is Ok,
        text::trim(value) != value ==> optional_string(field, value) == Err::<(), Seq<char>>(
            field + " must not have leading or trailing whitespace"@,
        ),
        text::trim(value) == value ==> optional_string(field, value) is Ok,
{
}

/// The first rule that a path breaks is named, behind the name of its field: it does not begin
/// with a slash, and holds no backslash, no colon, and no part that is empty or leads elsewhere.
pub proof fn broken_path_rules_are_named(field: Seq<char>, path: Seq<char>)
    ensures
        ({
            let parts = split::split(path, split::one_of(seq!['/']));
            let rooted = path.len() > 0 && path[0] == '/';
            let outcome = plugin_path(field, path);
            &&& rooted ==> outcome == Err::<(), Seq<char>>(field + " must be a relative path"@)
            &&& !rooted && path.contains('\\') ==> outcome == Err::<(), Seq<char>>(
                field + " must use forward slashes"@,
            )
            &&& !rooted && !path.contains('\\') && path.contains(':') ==> outcome == Err::<
                (),
                Seq<char>,
            >(field + " must not contain drive letters or ':' characters"@)
            &&& !rooted && !path.contains('\\') && !path.contains(':') ==> {
                if parts.contains(Seq::empty()) || parts.contains("."@) || parts.contains(".."@) {
                    outcome == Err::<(), Seq<char>>(
                        field + " must not contain empty, '.', or '..' segments"@,
                    )
                } else {
                    outcome is Ok
                }
            }
        }),
{
    reveal_strlit("/");
    lemma_paths_stay_inside(field, path);
    split::lemma_split_not_empty(path, split::one_of(seq!['/']));
    if path.len() > 0 && path[0] == '/' {
        assert(path.subrange(0, 1) == "/"@);
    }
    if path.len() == 0 {
        assert(plugin_segments(path)[0] == Seq::<char>::empty());
    }
    if "/"@.is_prefix_of(path) {
        assert(path[0] == "/"@[0]);
    }
}

/// The rules are checked in the order of the fields: identifier, name, version, entry,
/// description and style. The message of a manifest is that of the first field that breaks one.
pub proof fn fields_are_checked_in_order(manifest: ExternalPluginManifest)
    ensures
        ({
            let outcome = manifest_outcome(manifest.model());
            let id = required_string("id"@, manifest.id@);
            let name = required_string("name"@, manifest.name@);
            let version = required_string("version"@, manifest.version@);
            let entry = required_string("entry"@, manifest.entry@);
            let place = plugin_path("entry"@, manifest.entry@);
            let script = ".js"@.is_suffix_of(manifest.entry@) || ".mjs"@.is_suffix_of(
                manifest.entry@,
            );
            &&& id is Err ==> outcome == id
            &&& id is Ok && name is Err ==> outcome == name
            &&& id is Ok && name is Ok && version is Err ==> outcome == version
            &&& id is Ok && name is Ok && version is Ok ==> {
                &&& entry is Err ==> outcome == entry
                &&& entry is Ok && place is Err ==> outcome == place
                &&& entry is Ok && place is Ok && !script ==> outcome == Err::<(), Seq<char>>(
                    "entry must point to a .js or .mjs file"@,
                )
                &&& entry is Ok && place is Ok && script ==> {
                    let told = manifest.description is Some && text::trim(
                        manifest.description->0@,
                    ) != manifest.description->0@;
                    let style = manifest.style->0@;
                    &&& told ==> outcome == Err::<(), Seq<char>>(
                        "description"@ + " must not have leading or trailing whitespace"@,
                    )
                    &&& !told && manifest.style is None ==> outcome is Ok
                    &&& !told && manifest.style is Some ==> outcome == {
                        if optional_string("style"@, style) is Err {
                            optional_string("style"@, style)
                        } else if plugin_path("style"@, style) is Err {
                            plugin_path("style"@, style)
                        } else if ".css"@.is_suffix_of(style) {
                            Ok(())
                        } else {
                            Err("style must point to a .css file"@)
                        }
                    }
                }
            }
        }),
{
}

} // verus!
