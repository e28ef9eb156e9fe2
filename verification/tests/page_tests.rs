use diary::crypto::{check_verifier, new_verifier, same_text, PasswordError, PASSWORD_CHECK};
use diary::db_ops::{attach_file, classify, seal_entry, EntryError};
use diary::page::{decimal_text, join_dir, pick_path, PageError, PAGE_HEAD, PAGE_TAIL};
use diary::text::{chars_of, ends_with, last_path_segment};
use diary::{append_entry, gen_page, Entry, FileType};

#[test]
fn verifier_opens_with_its_password() {
    let v = new_verifier("secret");
    assert_eq!(v.len(), 16);
    assert_eq!(check_verifier("secret", &v), Ok(()));
}

#[test]
fn verifier_refuses_other_passwords() {
    let v = new_verifier("secret");
    assert!(check_verifier("Secret", &v).is_err());
    assert!(check_verifier("", &v).is_err());
}

#[test]
fn verifier_of_other_text_is_a_mismatch() {
    let f = attach_file("x", b"917994806419", "pw");
    assert_eq!(check_verifier("pw", &f.data), Err(PasswordError::Mismatch));
    let f = attach_file("x", &[0xff, 0xfe], "pw");
    assert_eq!(check_verifier("pw", &f.data), Err(PasswordError::NotText));
    assert_eq!(check_verifier("pw", &[1, 2, 3]), Err(PasswordError::WrongPassword));
    assert_eq!(PASSWORD_CHECK, "917994806418");
}

#[test]
fn sealed_entry_keeps_day_and_hides_text() {
    let e = seal_entry(2021, 3, 9, "my day", Vec::new(), "pw").unwrap();
    assert_eq!((e.year, e.month, e.date), (2021, 3, 9));
    assert_eq!(e.content.len(), 16);
    assert_ne!(e.content, b"my day".to_vec());
    assert!(e.files.is_empty());
}

#[test]
fn negative_year_is_refused() {
    assert!(matches!(seal_entry(-1, 1, 1, "x", Vec::new(), "pw"), Err(EntryError::YearBeforeZero)));
}

#[test]
fn entry_of_today() {
    let e = match append_entry(String::from("today's text"), Vec::new(), "pw") {
        Ok(e) => e,
        Err(err) => {
            assert_eq!(err, EntryError::NoDate);
            return;
        }
    };
    assert!(e.year >= 1969);
    assert!(1 <= e.month && e.month <= 12);
    assert!(1 <= e.date && e.date <= 31);
    let page = gen_page("pw", "/tmp", &vec![e]).unwrap();
    assert!(page.html.contains(" today's text "));
}

#[test]
fn empty_diary_page() {
    let page = gen_page("pw", "/tmp", &Vec::new()).unwrap();
    assert_eq!(page.html, format!("{}{}", PAGE_HEAD, PAGE_TAIL));
    assert!(page.html.starts_with("<html>\n<meta charset=\"UTF-8\">"));
    assert!(page.attachments.is_empty());
}

#[test]
fn page_of_two_entries() {
    let pic = attach_file("/pics/sea.jpg", b"jpegdata", "pw");
    let tune = attach_file("tune.ogg", b"oggdata", "pw");
    let doc = attach_file("a/b/report.pdf", b"pdfdata", "pw");
    assert_eq!(pic.f_type, FileType::Image);
    assert_eq!(tune.f_type, FileType::Audio);
    assert_eq!(doc.f_type, FileType::GenericFile);
    let e1 = seal_entry(2020, 12, 31, "first", vec![pic, tune], "pw").unwrap();
    let e2 = seal_entry(2021, 1, 1, "second", vec![doc], "pw").unwrap();
    let page = gen_page("pw", "/tmp/", &vec![e1, e2]).unwrap();
    assert_eq!(page.attachments.len(), 2);
    assert_eq!(page.attachments[0].len(), 2);
    assert_eq!(page.attachments[1].len(), 1);
    assert_eq!(page.attachments[0][0].data, b"jpegdata".to_vec());
    assert_eq!(page.attachments[0][1].data, b"oggdata".to_vec());
    assert_eq!(page.attachments[1][0].data, b"pdfdata".to_vec());
    let p0 = page.attachments[0][0].path.clone();
    let p1 = page.attachments[0][1].path.clone();
    let p2 = page.attachments[1][0].path.clone();
    assert_ne!(p0, p1);
    assert_ne!(p0, p2);
    assert_ne!(p1, p2);
    for p in [&p0, &p1, &p2] {
        assert!(p.starts_with("/tmp/"));
        assert_eq!(p.len(), "/tmp/".len() + 36);
        assert!(!p["/tmp/".len()..].contains('/'));
    }
    let expected = format!(
        "{}{}{}{}{}{}{}{}",
        PAGE_HEAD,
        "<div class=\"entries\"><br> <h1><b> 31/12/2020 </b></h1> <br> first <br><br><br><br>",
        format!("<img src=\"{}\" class=\"image\"><br>", p0),
        format!("<audio controls src=\"{}\">Audio playback not supported by this browser! File: tune.ogg</audio><br>", p1),
        "</div><br>",
        "<div class=\"entries\"><br> <h1><b> 1/1/2021 </b></h1> <br> second <br><br><br><br>",
        format!("<a href=\"{}\" style=\"text-decoration: none\" download=\"report.pdf\"><p class = \"downloader\">Download: report.pdf</p></a><br></div><br>", p2),
        PAGE_TAIL
    );
    assert_eq!(page.html, expected);
}

#[test]
fn wrong_password_cannot_show_the_diary() {
    let e = seal_entry(2021, 1, 1, "secret text", Vec::new(), "pw").unwrap();
    assert!(gen_page("other", "/tmp", &vec![e]).is_err());
}

#[test]
fn undecryptable_file_is_refused() {
    let bad = diary::File { data: vec![1, 2, 3], description: String::from("x"), f_type: FileType::Image };
    let e = seal_entry(2021, 1, 1, "text", vec![bad], "pw").unwrap();
    assert!(matches!(gen_page("pw", "/tmp", &vec![e]), Err(PageError::Undecryptable)));
}

#[test]
fn non_text_entry_is_refused() {
    let raw = attach_file("x", &[0xc3, 0x28], "pw");
    let e = Entry::new(1, 2, 3, raw.data, Vec::new());
    assert!(matches!(gen_page("pw", "/tmp", &vec![e]), Err(PageError::NotText)));
    let e = Entry::new(1, 2, 3, vec![0; 5], Vec::new());
    assert!(matches!(gen_page("pw", "/tmp", &vec![e]), Err(PageError::Undecryptable)));
}

#[test]
fn decimal_numerals() {
    assert_eq!(decimal_text(0), "0");
    assert_eq!(decimal_text(7), "7");
    assert_eq!(decimal_text(2024), "2024");
    assert_eq!(decimal_text(u64::MAX), "18446744073709551615");
}

#[test]
fn joining_paths() {
    assert_eq!(join_dir("/tmp", "a"), "/tmp/a");
    assert_eq!(join_dir("/tmp/", "a"), "/tmp/a");
    assert_eq!(join_dir("", "a"), "a");
}

#[test]
fn file_kinds_by_extension() {
    for p in ["a.png", "a.apng", "a.gif", "a.jpeg", "a.jpg", "a.svg", "a.webp", "a.avif"] {
        assert_eq!(classify(p), FileType::Image);
    }
    for p in ["a.mp3", "a.wav", "a.ogg", "a.webm"] {
        assert_eq!(classify(p), FileType::Audio);
    }
    for p in ["a.PNG", "a.txt", "png", "", "a.png.zip"] {
        assert_eq!(classify(p), FileType::GenericFile);
    }
}

#[test]
fn last_segments() {
    assert_eq!(last_path_segment("/home/me/a.txt"), "a.txt");
    assert_eq!(last_path_segment("a.txt"), "a.txt");
    assert_eq!(last_path_segment("dir/"), "");
    assert_eq!(last_path_segment(""), "");
}

#[test]
fn text_helpers() {
    assert_eq!(chars_of("añb"), vec!['a', 'ñ', 'b']);
    assert!(ends_with(&chars_of("x.png"), ".png"));
    assert!(!ends_with(&chars_of("png"), ".png"));
    assert!(same_text("abc", "abc"));
    assert!(!same_text("abc", "abd"));
    assert!(!same_text("abc", "ab"));
}

#[test]
fn attachment_paths_are_distinct() {
    let mut files = Vec::new();
    for k in 0..20u8 {
        files.push(attach_file("same.bin", &[k], "pw"));
    }
    let e1 = seal_entry(2022, 2, 2, "a", files, "pw").unwrap();
    let e2 = seal_entry(2022, 2, 3, "b", vec![attach_file("same.bin", b"z", "pw")], "pw").unwrap();
    let page = gen_page("pw", "/tmp", &vec![e1, e2]).unwrap();
    let mut paths: Vec<String> = page.attachments.iter().flatten().map(|a| a.path.clone()).collect();
    assert_eq!(paths.len(), 21);
    paths.sort();
    paths.dedup();
    assert_eq!(paths.len(), 21);
    for (k, a) in page.attachments[0].iter().enumerate() {
        assert_eq!(a.data, vec![k as u8]);
    }
}

#[test]
fn picking_a_free_path() {
    let names = vec![String::from("a"), String::from("b")];
    assert_eq!(pick_path("/d", &names, &Vec::new()).ok(), Some(String::from("/d/a")));
    assert_eq!(pick_path("/d", &names, &vec![String::from("/d/a")]).ok(), Some(String::from("/d/b")));
    assert!(matches!(
        pick_path("/d", &names, &vec![String::from("/d/b"), String::from("/d/a")]),
        Err(PageError::NameClash)
    ));
    assert!(matches!(pick_path("/d", &Vec::new(), &Vec::new()), Err(PageError::NameClash)));
}
