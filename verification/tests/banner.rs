use rush_env::say::say_section;

#[test]
fn test_section_single_short_line() {
    let mut buf = String::new();
    say_section(&mut buf, "简单说明", 48, 2).unwrap();
    let expected =
r#"#----------------------------------------------#
#                   简单说明                   #
#----------------------------------------------#
"#;
    assert_eq!(expected, buf);
}

#[test]
fn test_section_multi_line_and_blank() {
    let mut buf = String::new();
    say_section(&mut buf, "标题\n副标题\n\n多行说明", 48, 2).unwrap();
    println!("{buf}");
    let expected =
r#"#----------------------------------------------#
#                     标题                     #
#                    副标题                    #
#                                              #
#                   多行说明                   #
#----------------------------------------------#
"#;
    assert_eq!(expected, buf);
}

#[test]
fn test_section_auto_wrap_ascii() {
    let mut buf = String::new();
    say_section(&mut buf, "This is a long, long, long, long sentence that should auto wrap nicely.", 48, 2).unwrap();
    println!("{buf}");
    let expected =
r#"#----------------------------------------------#
#  This is a long, long, long, long sentence   #
#        that should auto wrap nicely.         #
#----------------------------------------------#
"#;
    assert_eq!(buf, expected);
}

#[test]
fn test_section_utf8_chinese_emoji() {
    let mut buf = String::new();
    say_section(&mut buf, "Rush工具支持emoji🎉，中文分行测试：极其长的一行需要分包到下行", 48, 2).unwrap();
    println!("{buf}");
    let expected =
r#"#----------------------------------------------#
#  Rush工具支持emoji🎉，中文分行测试：极其长   #
#             的一行需要分包到下行             #
#----------------------------------------------#
"#;
    assert_eq!(buf, expected);
}

#[test]
fn test_section_full_width_chars() {
    let mut buf = String::new();
    say_section(&mut buf, "全角：ＡＢＣＤＥＦ, ABCDEF", 48, 2).unwrap();
    println!("{buf}");
    let expected =
r#"#----------------------------------------------#
#          全角：ＡＢＣＤＥＦ, ABCDEF          #
#----------------------------------------------#
"#;
    assert_eq!(buf, expected);
}

#[test]
fn test_section_super_long_wrap() {
    let mut buf = String::new();
    say_section(
        &mut buf,
        "本行超长会被自动换行：这是一个很长很长很长很长很长很长很长很长很长很长的句子，用来测试自动包裹",
        48,
        2,
    )
    .unwrap();
    println!("{buf}");
    let expected =
r#"#----------------------------------------------#
#  本行超长会被自动换行：这是一个很长很长很长  #
#  很长很长很长很长很长很长很长的句子，用来测  #
#                  试自动包裹                  #
#----------------------------------------------#
"#;
    assert_eq!(buf, expected);
}

#[test]
fn test_section_preserve_empty_lines() {
    let mut buf = String::new();
    say_section(&mut buf, "第一行\n\n\n最后一行", 48, 2).unwrap();
    println!("{buf}");
    let expected =
r#"#----------------------------------------------#
#                    第一行                    #
#                                              #
#                                              #
#                   最后一行                   #
#----------------------------------------------#
"#;
    assert_eq!(buf, expected);
}
