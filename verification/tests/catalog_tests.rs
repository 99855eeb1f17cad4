use app_updates::catalog::{
    bare_version, bracketed_version, catalog_name, find_online_programs, link_target,
    BARE_VERSION_PATTERN, BRACKETED_VERSION_PATTERN, FAMILY_MARKER, LINK_MARKER, LINK_PATTERN,
    MARKUP_ARTIFACT, NAME_PATTERN,
};
use app_updates::model::{LocalFoundApp, MatchStrategy, OnlineFoundApp};

fn installed(name: &str) -> LocalFoundApp {
    LocalFoundApp { version: String::new(), name: name.to_string(), newest_online: None }
}

fn fields(entries: &[OnlineFoundApp]) -> Vec<(String, String, String)> {
    entries.iter().map(|e| (e.name.clone(), e.version.clone(), e.magnet.clone())).collect()
}

fn triple(name: &str, version: &str, magnet: &str) -> (String, String, String) {
    (name.to_string(), version.to_string(), magnet.to_string())
}

fn by_marker(page: &str) -> Vec<(String, String, String)> {
    fields(&find_online_programs(&Vec::new(), page, MatchStrategy::FamilyMarker))
}

fn by_names(names: &[&str], page: &str) -> Vec<(String, String, String)> {
    let apps: Vec<LocalFoundApp> = names.iter().map(|n| installed(n)).collect();
    fields(&find_online_programs(&apps, page, MatchStrategy::InstalledNames))
}

const PAGE: &str = "<html>\n\
<tr><td><a href=\"viewtopic.php?t=1\"><b>Adobe Photoshop 2024 (v25.2)<wbr> Multilingual</b></a></td>\n\
<td><a class=\"dl\" href=\"magnet:?xt=urn:btih:AAAA&dn=ps\">magnet</a></td></tr>\n\
<tr><td>unrelated row</td></tr>\n\
<tr><td><a href=\"viewtopic.php?t=2\"><b>Adobe Illustrator 2023 v27.9 x64<wbr></b></a></td>\n\
<td><a class=\"dl\" href=\"magnet:?xt=urn:btih:BBBB&dn=ai\">magnet</a></td></tr>\n\
</html>\n";

#[test]
fn patterns_have_their_values() {
    assert_eq!(FAMILY_MARKER, "adobe");
    assert_eq!(NAME_PATTERN, "<b>Adobe .*<wbr>");
    assert_eq!(BRACKETED_VERSION_PATTERN, "\\(v.*?\\)");
    assert_eq!(BARE_VERSION_PATTERN, "v[.\\d]* ");
    assert_eq!(LINK_MARKER, "href=\"magnet:?");
    assert_eq!(LINK_PATTERN, "href=\"magnet:\\?xt.*?\"");
    assert_eq!(MARKUP_ARTIFACT, "<wbr>");
}

#[test]
fn page_gives_one_entry_per_family_line() {
    assert_eq!(
        by_marker(PAGE),
        vec![
            triple("Adobe Photoshop 2024 (v25.2)", "25.2", "magnet:?xt=urn:btih:AAAA&dn=ps"),
            triple("Adobe Illustrator 2023 v27.9 x64", "27.9", "magnet:?xt=urn:btih:BBBB&dn=ai"),
        ]
    );
}

#[test]
fn extraction_is_repeatable() {
    let first = by_marker(PAGE);
    let second = by_marker(PAGE);
    assert_eq!(first, second);
    let names = ["Photoshop", "Illustrator"];
    assert_eq!(by_names(&names, PAGE), by_names(&names, PAGE));
}

#[test]
fn empty_page_gives_no_entries() {
    assert!(by_marker("").is_empty());
    assert!(by_marker("\n\n\n").is_empty());
    assert!(by_marker("<html>nothing of the family</html>").is_empty());
    assert!(by_names(&["Photoshop"], "").is_empty());
}

#[test]
fn family_marker_is_found_in_any_letter_case() {
    assert_eq!(by_marker("ADOBE").len(), 1);
    assert_eq!(by_marker("xxAdObExx").len(), 1);
    assert_eq!(by_marker("adobe\nAdobe\nadob e\nADOBE").len(), 3);
}

#[test]
fn entry_line_without_any_pattern_gives_empty_fields() {
    assert_eq!(by_marker("plain adobe line"), vec![triple("", "", "")]);
}

#[test]
fn bracketed_version_is_not_replaced_by_a_bare_one_elsewhere() {
    let page = "<b>Adobe Bridge (v3.2.1)<wbr></b>\n\
                <b>Other Product v9.9 x64</b>\n\
                <b>Adobe Audition<wbr></b>\n";
    assert_eq!(
        by_marker(page),
        vec![triple("Adobe Bridge (v3.2.1)", "3.2.1", ""), triple("Adobe Audition", "", "")]
    );
}

#[test]
fn bracketed_version_wins_over_bare_on_the_same_line() {
    assert_eq!(by_marker("adobe v9.9 and (v3.2.1)")[0].1, "3.2.1");
    assert_eq!(by_marker("adobe (v3.2.1) and v9.9 ")[0].1, "3.2.1");
    assert_eq!(by_marker("adobe v9.9 only")[0].1, "9.9");
}

#[test]
fn markup_artifact_is_cut_from_a_bracketed_version() {
    assert_eq!(by_marker("<b>Adobe X (v24.1.0<wbr>)</b>")[0].1, "24.1.0");
    assert_eq!(bracketed_version("(v24.1.0<wbr>)"), "24.1.0");
    assert_eq!(bracketed_version("(v24<wbr>.1.0)"), "24<wbr");
    assert_eq!(bracketed_version("(v<wbr>)"), "");
}

#[test]
fn bracketed_version_drops_its_wrapping() {
    assert_eq!(bracketed_version("(v3.2.1)"), "3.2.1");
    assert_eq!(bracketed_version("(v)"), "");
    assert_eq!(bracketed_version("(v 1.0 beta)"), " 1.0 beta");
    assert_eq!(bracketed_version("()"), "");
    assert_eq!(bracketed_version(""), "");
}

#[test]
fn bare_version_drops_its_marker_and_is_trimmed() {
    assert_eq!(bare_version("v9.9 "), "9.9");
    assert_eq!(bare_version("v "), "");
    assert_eq!(bare_version("v27.9.0.1 "), "27.9.0.1");
    assert_eq!(bare_version("v 1.0  "), "1.0");
    assert_eq!(bare_version("v"), "");
    assert_eq!(bare_version(""), "");
}

#[test]
fn catalog_name_drops_the_tags() {
    assert_eq!(catalog_name(Some("<b>Adobe Photoshop<wbr>")), "Adobe Photoshop");
    assert_eq!(catalog_name(Some("<b>Adobe <wbr>")), "Adobe ");
    assert_eq!(catalog_name(Some("<b><wbr>")), "");
    assert_eq!(catalog_name(Some("<b>wbr>")), "");
    assert_eq!(catalog_name(None), "");
}

#[test]
fn catalog_name_runs_to_the_last_tag_of_the_line() {
    let page = "<b>Adobe One<wbr> two<wbr> three</b>";
    assert_eq!(by_marker(page)[0].0, "Adobe One<wbr> two");
}

#[test]
fn link_target_drops_the_attribute_wrapping() {
    assert_eq!(link_target("href=\"magnet:?xt=urn:btih:AAAA\""), "magnet:?xt=urn:btih:AAAA");
    assert_eq!(link_target("href=\"\""), "");
    assert_eq!(link_target("href="), "");
}

#[test]
fn link_is_taken_from_the_entry_line_itself_first() {
    let page = "adobe <a href=\"magnet:?xt=own\">x</a>\n<a href=\"magnet:?xt=below\">y</a>";
    assert_eq!(by_marker(page)[0].2, "magnet:?xt=own");
}

#[test]
fn link_search_runs_forward_past_unrelated_lines() {
    let page = "adobe one\nrow\nrow\nadobe two\nrow\n<a href=\"magnet:?xt=shared&x\">m</a>\nadobe three";
    let entries = by_marker(page);
    assert_eq!(entries.len(), 3);
    assert_eq!(entries[0].2, "magnet:?xt=shared&x");
    assert_eq!(entries[1].2, "magnet:?xt=shared&x");
    assert_eq!(entries[2].2, "");
}

#[test]
fn link_search_skips_marker_lines_that_do_not_match() {
    let page = "adobe\n<a href=\"magnet:?yy=1\">no</a>\n<a href=\"magnet:?xt=2\">yes</a>";
    assert_eq!(by_marker(page)[0].2, "magnet:?xt=2");
}

#[test]
fn link_ends_at_the_first_closing_quote() {
    let page = "adobe <a href=\"magnet:?xt=1\" title=\"t\">x</a>";
    assert_eq!(by_marker(page)[0].2, "magnet:?xt=1");
}

#[test]
fn carriage_returns_do_not_reach_the_fields() {
    let page = "<b>Adobe Bridge (v3.2.1)<wbr>\r\n<a href=\"magnet:?xt=1\">\r\n";
    assert_eq!(by_marker(page), vec![triple("Adobe Bridge (v3.2.1)", "3.2.1", "magnet:?xt=1")]);
}

#[test]
fn text_outside_ascii_is_kept_whole() {
    let page = "<b>Adobe \u{424}\u{43e}\u{442}\u{43e} (v1.\u{e9})<wbr>";
    assert_eq!(
        by_marker(page),
        vec![triple("Adobe \u{424}\u{43e}\u{442}\u{43e} (v1.\u{e9})", "1.\u{e9}", "")]
    );
}

#[test]
fn duplicate_entries_are_kept() {
    let page = "<b>Adobe X (v1.0)<wbr>\n<b>Adobe X (v1.0)<wbr>\n<b>Adobe X (v2.0)<wbr>";
    let entries = by_marker(page);
    assert_eq!(entries.len(), 3);
    assert_eq!(entries[0], entries[1]);
    assert_eq!(entries[2].1, "2.0");
}

#[test]
fn installed_names_give_one_entry_per_contained_name() {
    let entries = by_names(&["Photoshop", "Illustrator", "Premiere"], PAGE);
    assert_eq!(
        entries,
        vec![
            triple("Photoshop", "25.2", "magnet:?xt=urn:btih:AAAA&dn=ps"),
            triple("Illustrator", "27.9", "magnet:?xt=urn:btih:BBBB&dn=ai"),
        ]
    );
}

#[test]
fn installed_names_are_matched_with_their_letter_case() {
    assert!(by_names(&["photoshop"], PAGE).is_empty());
    assert_eq!(by_names(&["Photoshop"], PAGE).len(), 1);
}

#[test]
fn a_line_with_several_installed_names_gives_several_entries() {
    let page = "Bundle: Photoshop and Lightroom (v5.0)\n<a href=\"magnet:?xt=b\">";
    assert_eq!(
        by_names(&["Lightroom", "Acrobat", "Photoshop"], page),
        vec![triple("Lightroom", "5.0", "magnet:?xt=b"), triple("Photoshop", "5.0", "magnet:?xt=b")]
    );
}

#[test]
fn installed_names_do_not_need_the_family_marker() {
    assert_eq!(by_names(&["Tool"], "My Tool v1.5 x"), vec![triple("Tool", "1.5", "")]);
    assert!(by_marker("My Tool v1.5 x").is_empty());
}

#[test]
fn without_installed_names_that_strategy_finds_nothing() {
    assert!(by_names(&[], PAGE).is_empty());
}

#[test]
fn an_empty_installed_name_is_contained_in_every_line() {
    let entries = by_names(&[""], "first (v1.0)\n\nthird v3.0 x");
    assert_eq!(entries, vec![triple("", "1.0", ""), triple("", "", ""), triple("", "3.0", "")]);
}
