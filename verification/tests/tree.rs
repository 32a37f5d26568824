use htrs::{
    body, button, div, h1, h2, h3, h4, h5, h6, head, html, image, input, label, li, link, ol, p,
    script, title, ul, Child, Children, Element,
};

fn none() -> Vec<Element> {
    Vec::new()
}

#[test]
fn element_without_children_is_inline() {
    assert_eq!(div(none()).render(), "<div></div>");
    assert_eq!(Element::new("section", none()).render(), "<section></section>");
}

#[test]
fn element_with_one_text_child_is_inline() {
    assert_eq!(button("Go").render(), "<button>Go</button>");
    assert_eq!(Element::new_content("span", "a b").render(), "<span>a b</span>");
}

#[test]
fn element_with_one_element_child_is_a_block() {
    assert_eq!(div(p("x")).render(), "<div>\n  <p>x</p>\n</div>");
}

#[test]
fn block_of_two_inline_children() {
    let page = div((button("Go"), image("/a.jpg")));
    assert_eq!(
        page.render(),
        "<div>\n  <button>Go</button>\n  <image src=\"/a.jpg\"></image>\n</div>"
    );
}

#[test]
fn list_of_children_keeps_its_order() {
    let list = ul(vec![li("one"), li("two"), li("three")]);
    assert_eq!(
        list.render(),
        "<ul>\n  <li>one</li>\n  <li>two</li>\n  <li>three</li>\n</ul>"
    );
}

#[test]
fn indentation_is_added_at_every_level() {
    let page = html(body(div(p("x"))));
    let expected = "<html>\n  <body>\n    <div>\n      <p>x</p>\n    </div>\n  </body>\n</html>";
    assert_eq!(page.render(), expected);
}

#[test]
fn page_with_head_and_body() {
    let page = html((head(title("T")), body((h1("A"), ol(vec![li("1"), li("2")])))));
    let expected = "<html>\n  <head>\n    <title>T</title>\n  </head>\n  <body>\n    <h1>A</h1>\n    <ol>\n      <li>1</li>\n      <li>2</li>\n    </ol>\n  </body>\n</html>";
    assert_eq!(page.render(), expected);
}

#[test]
fn newline_in_the_text_of_an_inline_element_is_kept_as_it_is() {
    assert_eq!(p("a\nb").render(), "<p>a\nb</p>");
}

#[test]
fn newline_in_the_text_of_a_nested_element_is_indented() {
    assert_eq!(div(p("a\nb")).render(), "<div>\n  <p>a\n  b</p>\n</div>");
}

#[test]
fn text_children_of_a_block_are_indented_line_by_line() {
    let node = Element::new("div", none())
        .attach_child(Child::Text("a\nb".to_string()))
        .attach_child(Child::Text("c".to_string()));
    assert_eq!(node.render(), "<div>\n  a\n  b\n  c\n</div>");
}

#[test]
fn empty_text_children_leave_indented_empty_lines() {
    let node = Element::new("div", none())
        .attach_child(Child::Text(String::new()))
        .attach_child(Child::Text(String::new()));
    assert_eq!(node.render(), "<div>\n  \n  \n</div>");
}

#[test]
fn one_empty_text_child_is_inline() {
    assert_eq!(p("").render(), "<p></p>");
}

#[test]
fn attached_text_child_makes_an_inline_element() {
    let node = Element::new("p", none()).attach_child(Child::Text("hi".to_string()));
    assert_eq!(node.render(), "<p>hi</p>");
}

#[test]
fn text_followed_by_an_element_is_a_block() {
    let node = p("hi").attach_child(Child::Element(Box::new(button("Go"))));
    assert_eq!(node.render(), "<p>\n  hi\n  <button>Go</button>\n</p>");
}

#[test]
fn element_followed_by_text_is_a_block() {
    let node = div(button("Go")).attach_child(Child::Text("hi".to_string()));
    assert_eq!(node.render(), "<div>\n  <button>Go</button>\n  hi\n</div>");
}

#[test]
fn attached_children_come_behind_the_others_in_order() {
    let node = div(p("a")).attach_children((p("b"), p("c"))).attach_children(p("d"));
    assert_eq!(
        node.render(),
        "<div>\n  <p>a</p>\n  <p>b</p>\n  <p>c</p>\n  <p>d</p>\n</div>"
    );
}

#[test]
fn attaching_no_children_changes_nothing() {
    assert_eq!(p("a").attach_children(none()).render(), "<p>a</p>");
    assert_eq!(div(none()).attach_children(none()).render(), "<div></div>");
}

#[test]
fn any_tag_may_hold_any_child() {
    let node = li("x").attach_child(Child::Element(Box::new(html(none()))));
    assert_eq!(node.render(), "<li>\n  x\n  <html></html>\n</li>");
}

#[test]
fn nothing_is_escaped() {
    assert_eq!(p("<b>&\"</b>").render(), "<p><b>&\"</b></p>");
    assert_eq!(image("a\"b<c").render(), "<image src=\"a\"b<c\"></image>");
}

#[test]
fn empty_tag_is_rendered_as_it_is() {
    assert_eq!(Element::new_content("", "x").render(), "<>x</>");
    assert_eq!(Element::new("", none()).render(), "<></>");
}

#[test]
fn tag_with_a_newline_is_rendered_as_it_is() {
    assert_eq!(Element::new("a\nb", none()).render(), "<a\nb></a\nb>");
}

#[test]
fn elements_with_a_source() {
    assert_eq!(image("/a.jpg").render(), "<image src=\"/a.jpg\"></image>");
    assert_eq!(script("app.js").render(), "<script src=\"app.js\"></script>");
    assert_eq!(image("").render(), "<image src=\"\"></image>");
}

#[test]
fn link_has_its_reference_before_its_relation() {
    assert_eq!(
        link("style.css", "stylesheet").render(),
        "<link href=\"style.css\" rel=\"stylesheet\"></link>"
    );
}

#[test]
fn every_parent_constructor_uses_its_own_tag() {
    assert_eq!(html(none()).render(), "<html></html>");
    assert_eq!(body(none()).render(), "<body></body>");
    assert_eq!(head(none()).render(), "<head></head>");
    assert_eq!(div(none()).render(), "<div></div>");
    assert_eq!(ol(none()).render(), "<ol></ol>");
    assert_eq!(ul(none()).render(), "<ul></ul>");
}

#[test]
fn every_content_constructor_uses_its_own_tag() {
    assert_eq!(p("t").render(), "<p>t</p>");
    assert_eq!(li("t").render(), "<li>t</li>");
    assert_eq!(title("t").render(), "<title>t</title>");
    assert_eq!(button("t").render(), "<button>t</button>");
    assert_eq!(h1("t").render(), "<h1>t</h1>");
    assert_eq!(h2("t").render(), "<h2>t</h2>");
    assert_eq!(h3("t").render(), "<h3>t</h3>");
    assert_eq!(h4("t").render(), "<h4>t</h4>");
    assert_eq!(h5("t").render(), "<h5>t</h5>");
    assert_eq!(h6("t").render(), "<h6>t</h6>");
    assert_eq!(input("t").render(), "<input>t</input>");
    assert_eq!(label("t").render(), "<label>t</label>");
}

#[test]
fn children_of_one_element_a_pair_and_a_list() {
    assert_eq!(p("a").children().len(), 1);
    assert_eq!((p("a"), p("b")).children().len(), 2);
    assert_eq!(vec![p("a"), p("b"), p("c")].children().len(), 3);
    assert_eq!(none().children().len(), 0);
    let pair = (p("a"), p("b")).children();
    match &pair[1] {
        Child::Element(element) => {
            let mut out = String::new();
            element.write_to(&mut out);
            assert_eq!(out, "<p>b</p>");
        }
        Child::Text(_) => panic!("an element was given"),
    }
}

#[test]
fn the_same_tree_is_rendered_to_the_same_text() {
    let build = || div((button("Go").attach_child(Child::Text("x\ny".to_string())), image("/a.jpg")));
    assert_eq!(build().render(), build().render());
    let tree = build();
    let mut first = String::new();
    tree.write_to(&mut first);
    let mut second = String::new();
    tree.write_to(&mut second);
    assert_eq!(first, second);
    assert_eq!(first, tree.render());
}

#[test]
fn writing_appends_to_what_is_there() {
    let mut out = String::from("<!doctype html>\n");
    div(p("x")).write_to(&mut out);
    assert_eq!(out, "<!doctype html>\n<div>\n  <p>x</p>\n</div>");
}

#[test]
fn every_line_of_a_single_child_is_moved_right_by_two_spaces() {
    let child = ul(vec![li("a"), li("b")]);
    let child_text = ul(vec![li("a"), li("b")]).render();
    let parent_text = div(child).render();
    let parent_lines: Vec<&str> = parent_text.split('\n').collect();
    let child_lines: Vec<&str> = child_text.split('\n').collect();
    assert_eq!(parent_lines.len(), child_lines.len() + 2);
    assert_eq!(parent_lines[0], "<div>");
    assert_eq!(parent_lines[parent_lines.len() - 1], "</div>");
    for (i, line) in child_lines.iter().enumerate() {
        assert_eq!(parent_lines[i + 1], format!("  {}", line));
    }
}

#[test]
fn inline_elements_hold_no_newline() {
    for text in [div(none()).render(), button("Go").render(), image("/a.jpg").render()] {
        assert!(!text.contains('\n'));
        assert!(text.starts_with('<'));
        assert!(text.ends_with('>'));
    }
}
