use htrs::attributes::{Attributed, Attributes};
use htrs::htmx::{Htmx, Selector, Swap, Target};
use htrs::{button, div, p, Element};

fn written(attrs: &Attributes) -> String {
    let mut out = String::new();
    attrs.write_to(&mut out);
    out
}

#[test]
fn no_attributes_are_written_as_nothing() {
    assert_eq!(written(&Attributes::new()), "");
}

#[test]
fn attributes_are_written_in_the_order_of_their_names() {
    let attrs = Attributes::new().set("a", "1").set("b", "2").set("c", "3");
    assert_eq!(written(&attrs), " a=\"1\" b=\"2\" c=\"3\"");
}

#[test]
fn a_later_write_replaces_the_value_and_keeps_the_place() {
    let attrs = Attributes::new().set("a", "1").set("b", "2").set("a", "3");
    assert_eq!(written(&attrs), " a=\"3\" b=\"2\"");
}

#[test]
fn an_accumulating_write_appends_to_the_value() {
    let attrs = Attributes::new().append("style", "x;").set("id", "n").append("style", "y;");
    assert_eq!(written(&attrs), " style=\"x;y;\" id=\"n\"");
}

#[test]
fn an_accumulating_write_on_an_absent_name_starts_the_value() {
    let attrs = Attributes::new().set("id", "n").append("style", "x;");
    assert_eq!(written(&attrs), " id=\"n\" style=\"x;\"");
}

#[test]
fn empty_names_and_values_are_written_as_they_are() {
    let attrs = Attributes::new().set("", "").set("", "v");
    assert_eq!(written(&attrs), " =\"v\"");
}

#[test]
fn set_attribute_on_an_element() {
    let node = p("x").set_attribute("id", "a").set_attribute("class", "b").set_attribute("id", "c");
    assert_eq!(node.render(), "<p id=\"c\" class=\"b\">x</p>");
}

#[test]
fn style_declarations_accumulate_in_call_order() {
    let node = p("x")
        .append_attribute("style", "padding: 1px;")
        .append_attribute("style", "margin: 2px;");
    assert_eq!(node.render(), "<p style=\"padding: 1px;margin: 2px;\">x</p>");
}

#[test]
fn second_target_replaces_the_first() {
    let node = button("X")
        .target(Target::Closest(Selector::Class("card".to_string())))
        .target(Target::Find(Selector::Id("out".to_string())));
    let text = node.render();
    assert_eq!(text, "<button hx-target=\"find #out\">X</button>");
    assert!(!text.contains("closest"));
    assert_eq!(text.matches("hx-target").count(), 1);
}

#[test]
fn attributes_of_a_block_stand_in_its_opening_tag_only() {
    let node = div(p("x")).get("/a");
    assert_eq!(node.render(), "<div hx-get=\"/a\">\n  <p>x</p>\n</div>");
}

#[test]
fn every_request_method_has_its_own_attribute() {
    assert_eq!(p("x").get("/u").render(), "<p hx-get=\"/u\">x</p>");
    assert_eq!(p("x").post("/u").render(), "<p hx-post=\"/u\">x</p>");
    assert_eq!(p("x").put("/u").render(), "<p hx-put=\"/u\">x</p>");
    assert_eq!(p("x").patch("/u").render(), "<p hx-patch=\"/u\">x</p>");
    assert_eq!(p("x").delete("/u").render(), "<p hx-delete=\"/u\">x</p>");
}

#[test]
fn request_methods_do_not_replace_each_other() {
    let node = p("x").get("/a").post("/b").get("/c");
    assert_eq!(node.render(), "<p hx-get=\"/c\" hx-post=\"/b\">x</p>");
}

#[test]
fn trigger_and_swap_are_single_slots() {
    let node = p("x").trigger("click").swap(Swap::Inner).trigger("load").swap(Swap::Delete);
    assert_eq!(node.render(), "<p hx-trigger=\"load\" hx-swap=\"delete\">x</p>");
}

#[test]
fn selectors_as_they_are_written() {
    assert_eq!(Selector::Class("card".to_string()).to_string(), ".card");
    assert_eq!(Selector::Id("main".to_string()).to_string(), "#main");
    assert_eq!(Selector::Tag("li".to_string()).to_string(), "li");
    assert_eq!(Selector::Any.to_string(), "");
    assert_eq!(Selector::Class(String::new()).to_string(), ".");
}

#[test]
fn targets_as_they_are_written() {
    let class = || Selector::Class("c".to_string());
    assert_eq!(Target::This.to_string(), "this");
    assert_eq!(Target::Closest(class()).to_string(), "closest .c");
    assert_eq!(Target::Find(class()).to_string(), "find .c");
    assert_eq!(Target::Next(class()).to_string(), "next .c");
    assert_eq!(Target::Previous(class()).to_string(), "previous .c");
    assert_eq!(Target::Selector(class()).to_string(), ".c");
    assert_eq!(Target::Next(Selector::Any).to_string(), "next ");
    assert_eq!(Target::Selector(Selector::Tag("ul".to_string())).to_string(), "ul");
}

#[test]
fn swaps_as_they_are_written() {
    assert_eq!(Swap::Inner.to_string(), "innerHTML");
    assert_eq!(Swap::Outer.to_string(), "outerHTML");
    assert_eq!(Swap::BeforeBegin.to_string(), "beforebegin");
    assert_eq!(Swap::AfterBegin.to_string(), "afterbegin");
    assert_eq!(Swap::BeforeEnd.to_string(), "beforeend");
    assert_eq!(Swap::AfterEnd.to_string(), "afterend");
    assert_eq!(Swap::Delete.to_string(), "delete");
    assert_eq!(Swap::Nothing.to_string(), "none");
}

#[test]
fn target_and_swap_on_an_element() {
    let node = Element::new_content("a", "go")
        .target(Target::Selector(Selector::Id("out".to_string())))
        .swap(Swap::BeforeEnd);
    assert_eq!(node.render(), "<a hx-target=\"#out\" hx-swap=\"beforeend\">go</a>");
}
