use uxmlwriter::XmlWriter;

const COMPENDIUM: &str = r#"<?xml version="1.0" encoding="UTF-8"?>
<compendium xmlns:exsl="http://exslt.org/common" version="5" auto_indent="NO">
    <item>
        <name>Maria</name>
        <text/>
        <!-- You've made your last delivery kid. -->
        <!-- Sorry you got twisted up in this scene. -->
        <!-- From where you're kneeling it must seem like an 18-carat run of bad luck. -->
        <!-- Truth is... -->
        <!-- The game was rigged from the start. -->
        <type>Pistol</type>
        <damage>20</damage>
        <rate>3.8</rate>
        <weight>1.5</weight>
        <value>999</value>
        <owner>Benny</owner>
    </item>
</compendium>"#;

fn build_compendium(w: &mut XmlWriter) {
    w.write_declaration();
    w.start_element("compendium");
    w.write_attribute("xmlns:exsl", "http://exslt.org/common");
    w.write_attribute("version", &5.to_string());
    w.write_attribute("auto_indent", "NO");
    w.start_element("item");
    w.start_element("name");
    w.write_text("Maria");
    w.close_element();
    w.start_element("text");
    w.close_element();
    w.write_comment("You've made your last delivery kid.");
    w.write_comment("Sorry you got twisted up in this scene.");
    w.write_comment("From where you're kneeling it must seem like an 18-carat run of bad luck.");
    w.write_comment("Truth is...");
    w.write_comment("The game was rigged from the start.");
    w.start_element("type");
    w.write_text("Pistol");
    w.close_element();
    w.start_element("damage");
    w.write_text("20");
    w.close_element();
    w.start_element("rate");
    w.write_text(&3.8.to_string());
    w.close_element();
    w.start_element("weight");
    w.write_text(&1.5.to_string());
    w.close_element();
    w.start_element("value");
    w.write_text(&999.to_string());
    w.close_element();
    w.start_element("owner");
    w.write_text("Benny");
}

#[test]
fn compatible_with_xmlwriter_api() {
    let mut w = XmlWriter::new();
    build_compendium(&mut w);
    assert_eq!(w.end_document(), COMPENDIUM.to_string());
}

#[test]
fn streamed_output_matches_whole_document() {
    let mut w = XmlWriter::new();
    build_compendium(&mut w);
    let mut streamed = w.take_output();
    assert!(streamed.starts_with("<?xml"));
    w.end_document_no_return();
    streamed.push_str(&w.take_output());
    assert_eq!(streamed, COMPENDIUM);
    assert_eq!(w.take_output(), "");
}

#[test]
fn weird_thing_works() {
    let mut w = XmlWriter::new();
    let expected = r#"<?xml version="1.0" encoding="UTF-8"?>
<root>
    <text attr="&quot;"/>
</root>"#;

    w.write_declaration();
    w.start_element("root");
    w.start_element("text");
    w.write_attribute("attr", "\"");

    assert_eq!(w.end_document(), expected);
}

#[test]
fn attributes_only_collapse_to_self_closing() {
    let mut w = XmlWriter::new();
    w.start_element("img");
    w.write_attribute("src", "a.png");
    w.write_attribute("alt", "x");
    w.close_element();
    assert_eq!(w.end_document(), "\n<img src=\"a.png\" alt=\"x\"/>");
}

#[test]
fn each_special_character_is_escaped() {
    assert_eq!(XmlWriter::xml_encode("&"), "&amp;");
    assert_eq!(XmlWriter::xml_encode("<"), "&lt;");
    assert_eq!(XmlWriter::xml_encode(">"), "&gt;");
    assert_eq!(XmlWriter::xml_encode("\""), "&quot;");
    assert_eq!(XmlWriter::xml_encode("'"), "&apos;");
    assert_eq!(
        XmlWriter::xml_encode("a&b<c>d\"e'f&amp;é"),
        "a&amp;b&lt;c&gt;d&quot;e&apos;f&amp;amp;é"
    );
    assert_eq!(XmlWriter::xml_encode(""), "");
}

#[test]
fn text_and_attribute_values_are_escaped() {
    let mut w = XmlWriter::new();
    w.start_element("p");
    w.write_attribute("q", "<'&'>");
    w.write_text("1 < 2 & \"x\"");
    assert_eq!(
        w.end_document(),
        "\n<p q=\"&lt;&apos;&amp;&apos;&gt;\">1 &lt; 2 &amp; &quot;x&quot;</p>"
    );
}

#[test]
fn end_document_closes_in_reverse_order() {
    let mut w = XmlWriter::new();
    w.start_element("a");
    w.start_element("b");
    w.start_element("c");
    assert_eq!(w.end_document(), "\n<a>\n    <b>\n        <c/>\n    </b>\n</a>");
}

#[test]
fn end_document_after_text_keeps_end_tag_on_line() {
    let mut w = XmlWriter::new();
    w.start_element("a");
    w.start_element("b");
    w.write_text("t");
    assert_eq!(w.end_document(), "\n<a>\n    <b>t</b>\n</a>");
}

#[test]
fn indentation_follows_depth() {
    let mut w = XmlWriter::new();
    w.start_element("a");
    w.start_element("b");
    w.start_element("c");
    w.close_element();
    w.write_comment("two");
    w.close_element();
    w.write_comment("one");
    w.close_element();
    w.write_comment("zero");
    assert_eq!(
        w.end_document(),
        "\n<a>\n    <b>\n        <c/>\n        <!-- two -->\n    </b>\n    <!-- one -->\n</a>\n<!-- zero -->"
    );
}

#[test]
fn comment_leaves_start_tag_pending() {
    let mut w = XmlWriter::new();
    w.start_element("a");
    w.write_comment("c");
    w.close_element();
    assert_eq!(w.end_document(), "\n<a\n    <!-- c -->/>");
}

#[test]
fn end_document_twice_adds_nothing() {
    let mut w = XmlWriter::new();
    w.start_element("a");
    let first = w.end_document();
    let second = w.end_document();
    assert_eq!(first, "\n<a/>");
    assert_eq!(second, first);
}

#[test]
fn end_document_on_empty_writer_is_empty() {
    let mut w = XmlWriter::default();
    assert_eq!(w.end_document(), "");
}

#[test]
fn close_on_empty_stack_does_nothing() {
    let mut w = XmlWriter::new();
    w.write_declaration();
    w.close_element();
    w.close_element();
    assert_eq!(w.end_document(), "<?xml version=\"1.0\" encoding=\"UTF-8\"?>");
}

#[test]
fn consecutive_text_concatenates() {
    let mut w = XmlWriter::new();
    w.start_element("t");
    w.write_text("ab");
    w.write_text("cd");
    w.close_element();
    assert_eq!(w.end_document(), "\n<t>abcd</t>");
}

#[test]
fn comments_are_not_escaped() {
    let mut w = XmlWriter::new();
    w.write_comment("a < b & c");
    assert_eq!(w.end_document(), "\n<!-- a < b & c -->");
}

#[test]
fn start_after_text_terminates_again() {
    let mut w = XmlWriter::new();
    w.start_element("a");
    w.write_text("x");
    w.start_element("b");
    assert_eq!(w.end_document(), "\n<a>x>\n    <b/>\n</a>");
}
