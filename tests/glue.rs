use note_printer::note::Note;
use note_printer::printers::{printers_from_lpstat, printers_from_wmic};

fn note() -> Note {
    Note {
        title: "My shopping list".to_string(),
        content: "<bold>milk</bold>\neggs".to_string(),
        created_at: "2024-03-05".to_string(),
    }
}

#[test]
fn export_text_is_title_date_and_raw_content() {
    assert_eq!(
        note().export_text(),
        "Title: My shopping list\nDate: 2024-03-05\n\n<bold>milk</bold>\neggs"
    );
}

#[test]
fn export_path_replaces_spaces() {
    assert_eq!(note().export_path("/home/ann"), "/home/ann/Desktop/My_shopping_list.txt");
}

#[test]
fn lpstat_names() {
    let out = "printer Office_Laser is idle.  enabled since Mon\n\
               \tForm mounted:\n\
               printer Receipt80 disabled since Tue -\n\
               printer\n\
               scheduler is running\n";
    assert_eq!(printers_from_lpstat(out), vec!["Office_Laser".to_string(), "Receipt80".to_string()]);
    assert!(printers_from_lpstat("").is_empty());
}

#[test]
fn wmic_names() {
    let out = "\r\n\r\nName=EPSON TM-T20\r\n\r\nName=Microsoft Print to PDF\r\nOther=1\r\n";
    assert_eq!(
        printers_from_wmic(out),
        vec!["EPSON TM-T20".to_string(), "Microsoft Print to PDF".to_string()]
    );
    assert!(printers_from_wmic("no printers").is_empty());
}
