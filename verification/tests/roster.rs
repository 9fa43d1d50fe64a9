use zongce_web::roster::roster_submission;
use std::io::{Read, Write};

use zongce_web::error::AppError;
use zongce_web::roster::{
    check_sheet_cells, normalize, parse, roster_additions, rows_from_csv, rows_from_sheet, RosterStudent, SheetCell,
    SheetRead, XmlElement, XmlScan,
};

fn message(r: Result<Vec<RosterStudent>, AppError>) -> String {
    match r {
        Err(AppError::Validation(v)) => {
            assert_eq!(v.fields.len(), 1);
            assert_eq!(v.fields[0].0, "roster");
            v.message()
        }
        Err(other) => panic!("unexpected error {other:?}"),
        Ok(students) => panic!("unexpected success {students:?}"),
    }
}

fn err_message<T: std::fmt::Debug>(r: Result<T, AppError>) -> String {
    match r {
        Err(AppError::Validation(v)) => v.message(),
        other => panic!("unexpected {other:?}"),
    }
}

fn rows(lines: &[&[&str]]) -> Vec<Vec<String>> {
    lines.iter().map(|l| l.iter().map(|c| c.to_string()).collect()).collect()
}

fn student(name: &str, no: &str) -> RosterStudent {
    RosterStudent { student_name: name.to_string(), student_no: no.to_string() }
}

#[test]
fn normalized_roster_is_sorted_by_number_without_duplicates() {
    let r = normalize(rows(&[
        &["", " "],
        &["学号", "班级", " 姓名 "],
        &["003", "1", " 丙 "],
        &["001", "1", "甲"],
        &[" ", ""],
        &["003", "2", "丙"],
    ]))
    .unwrap();
    assert_eq!(r, vec![student("甲", "001"), student("丙", "003")]);
}

#[test]
fn roster_refusals() {
    assert_eq!(message(normalize(vec![])), "请先导入学生名单");
    assert_eq!(message(normalize(rows(&[&["名字", "学号"], &["a", "1"]]))), "第一行必须包含“姓名”和“学号”两列表头");
    assert_eq!(message(normalize(rows(&[&["姓名", "学号"]]))), "名单只有表头，请至少添加一名学生");
    assert_eq!(
        message(normalize(rows(&[&["姓名", "学号"], &["a", "1"], &["b"]]))),
        "第 3 行姓名或学号为空、过长或包含无效字符"
    );
    assert_eq!(
        message(normalize(rows(&[&["姓名", "学号"], &["a", "1"], &["b", "1"]]))),
        "同一学号对应了不同姓名，请核对名单后重新导入"
    );
    assert_eq!(
        message(normalize(rows(&[&["姓名", "学号"], &["a\u{1}", "1"]]))),
        "第 2 行姓名或学号为空、过长或包含无效字符"
    );
}

#[test]
fn roster_row_limit() {
    let mut lines = vec![vec!["姓名".to_string(), "学号".to_string()]];
    for i in 0..5000 {
        lines.push(vec![format!("n{i}"), format!("{i:05}")]);
    }
    assert_eq!(normalize(lines.clone()).unwrap().len(), 5000);
    lines.push(vec!["x".to_string(), "x".to_string()]);
    assert_eq!(message(normalize(lines)), "每次最多导入 5000 行学生名单");
}

#[test]
fn csv_rosters() {
    let csv = "\u{feff}姓名,学号\n张三,001\n李四,002\n";
    assert_eq!(parse(Some("名单.CSV"), csv.as_bytes()).unwrap(), vec![student("张三", "001"), student("李四", "002")]);
    let tsv = "学号\t姓名\n9\t王五\n";
    assert_eq!(parse(None, tsv.as_bytes()).unwrap(), vec![student("王五", "9")]);
    assert_eq!(message(parse(Some("a.txt"), csv.as_bytes())), "请上传 .xlsx 或 UTF-8 CSV 名单");
    assert_eq!(message(parse(None, &[0xff, 0xfe, 0x00])), "CSV 请保存为 UTF-8 编码，或直接从 Excel 复制粘贴");
    let big = vec![b'a'; 2 * 1024 * 1024 + 1];
    assert_eq!(message(parse(Some("a.csv"), &big)), "名单文件不能超过 2 MiB");
    assert_eq!(message(parse(Some("a.xlsx"), b"not a zip")), "无法读取 Excel 文件，请使用提供的 .xlsx 模板");
}

#[test]
fn csv_records_stop_at_the_first_bad_one() {
    let ok = rows_from_csv(vec![Some(vec!["a".to_string()]), Some(vec![])]).unwrap();
    assert_eq!(ok, vec![vec!["a".to_string()], vec![]]);
    assert_eq!(err_message(rows_from_csv(vec![Some(vec![]), None])), "名单行格式无效，请使用两列模板");
    let many: Vec<Option<Vec<String>>> = (0..5002).map(|_| Some(vec!["x".to_string()])).collect();
    assert_eq!(err_message(rows_from_csv(many)), "每次最多导入 5000 行学生名单");
    let limit: Vec<Option<Vec<String>>> = (0..5001).map(|_| Some(vec!["x".to_string()])).collect();
    assert_eq!(rows_from_csv(limit).unwrap().len(), 5001);
}

#[test]
fn sheet_cells_become_texts() {
    let sheet = SheetRead::Cells {
        height: 2,
        width: 2,
        rows: vec![
            vec![SheetCell::Text("姓名".to_string()), SheetCell::Text("学号".to_string())],
            vec![SheetCell::Text("甲".to_string()), SheetCell::Empty],
        ],
    };
    assert_eq!(rows_from_sheet(sheet).unwrap(), rows(&[&["姓名", "学号"], &["甲", ""]]));
    let numbers = SheetRead::Cells { height: 1, width: 1, rows: vec![vec![SheetCell::Other]] };
    assert_eq!(
        err_message(rows_from_sheet(numbers)),
        "姓名和学号须使用文本单元格；请按模板重新填写，防止学号前导零或长数字丢失"
    );
    let wide = SheetRead::Cells { height: 1, width: 21, rows: vec![] };
    assert_eq!(err_message(rows_from_sheet(wide)), "名单最多 5000 人，请仅保留姓名和学号列");
    assert_eq!(err_message(rows_from_sheet(SheetRead::NoSheet)), "Excel 中没有工作表");
    assert_eq!(err_message(rows_from_sheet(SheetRead::Unreadable)), "Excel 文件无效，请使用提供的模板");
    assert_eq!(err_message(rows_from_sheet(SheetRead::Failed)), "无法读取名单工作表");
}

fn cell(attrs: &[(&str, &str)], ok: bool) -> XmlElement {
    XmlElement {
        local_name: b"c".to_vec(),
        attributes: attrs.iter().map(|(k, v)| (k.as_bytes().to_vec(), v.as_bytes().to_vec())).collect(),
        attributes_ok: ok,
    }
}

fn scan(elements: Vec<XmlElement>, well_formed: bool) -> XmlScan {
    XmlScan { elements, well_formed }
}

#[test]
fn worksheet_cells_must_stay_in_the_template() {
    let row = XmlElement { local_name: b"row".to_vec(), attributes: vec![], attributes_ok: true };
    assert!(check_sheet_cells(&scan(vec![row, cell(&[("r", "A1"), ("t", "s")], true), cell(&[("r", "T5001")], true)], true)).is_ok());
    assert_eq!(err_message(check_sheet_cells(&scan(vec![cell(&[("r", "U1")], true)], true))), "Excel 名单范围过大，请使用模板并仅保留姓名和学号列");
    assert_eq!(err_message(check_sheet_cells(&scan(vec![cell(&[("r", "AA1")], true)], true))), "Excel 名单范围过大，请使用模板并仅保留姓名和学号列");
    assert_eq!(err_message(check_sheet_cells(&scan(vec![cell(&[("r", "A5002")], true)], true))), "Excel 名单范围过大，请使用模板并仅保留姓名和学号列");
    assert_eq!(err_message(check_sheet_cells(&scan(vec![cell(&[("r", "A0")], true)], true))), "Excel 名单范围过大，请使用模板并仅保留姓名和学号列");
    assert_eq!(err_message(check_sheet_cells(&scan(vec![cell(&[("r", "Ax")], true)], true))), "Excel 单元格位置无效");
    assert_eq!(err_message(check_sheet_cells(&scan(vec![cell(&[("t", "s")], true)], true))), "Excel 单元格缺少位置，请重新另存为 .xlsx 文件");
    assert_eq!(err_message(check_sheet_cells(&scan(vec![cell(&[("r", "A1")], false)], true))), "Excel 单元格格式无效");
    assert_eq!(err_message(check_sheet_cells(&scan(vec![cell(&[("r", "A1")], true)], false))), "Excel 工作表格式无效");
    assert!(check_sheet_cells(&scan(vec![cell(&[("r", "B+7")], true)], true)).is_ok());
}

fn workbook(rows: &[&[&str]], number_cell: bool) -> Vec<u8> {
    let mut book = rust_xlsxwriter::Workbook::new();
    let sheet = book.add_worksheet();
    for (r, line) in rows.iter().enumerate() {
        for (c, value) in line.iter().enumerate() {
            sheet.write_string(r as u32, c as u16, *value).unwrap();
        }
    }
    if number_cell {
        sheet.write_number(rows.len() as u32, 0, 12.0).unwrap();
    }
    book.save_to_buffer().unwrap()
}

/// The workbook written again through a seekable zip writer, which records each entry's
/// sizes in its header (the streaming writer of `rust_xlsxwriter` leaves them to trailing
/// descriptors, so the archive declares no unpacked size).
fn rezipped(bytes: Vec<u8>) -> Vec<u8> {
    let mut input = zip::ZipArchive::new(std::io::Cursor::new(bytes)).unwrap();
    let mut out = zip::ZipWriter::new(std::io::Cursor::new(Vec::new()));
    for i in 0..input.len() {
        let mut entry = input.by_index(i).unwrap();
        let name = entry.name().unwrap().to_string();
        let mut content = Vec::new();
        entry.read_to_end(&mut content).unwrap();
        out.start_file(name, zip::write::SimpleFileOptions::default()).unwrap();
        out.write_all(&content).unwrap();
    }
    out.finish().unwrap().into_inner()
}

#[test]
fn excel_rosters() {
    let bytes = rezipped(workbook(&[&["姓名", "学号"], &["张三", "0012"], &["李四", "0003"]], false));
    assert_eq!(parse(Some("Roster.XLSX"), &bytes).unwrap(), vec![student("李四", "0003"), student("张三", "0012")]);
    let numbers = rezipped(workbook(&[&["姓名", "学号"], &["张三", "0012"]], true));
    assert_eq!(
        message(parse(Some("r.xlsx"), &numbers)),
        "姓名和学号须使用文本单元格；请按模板重新填写，防止学号前导零或长数字丢失"
    );
}

#[test]
fn excel_archive_without_declared_sizes_is_refused() {
    let streamed = workbook(&[&["姓名", "学号"], &["张三", "0012"]], false);
    assert_eq!(message(parse(Some("r.xlsx"), &streamed)), "Excel 内容过大，请使用精简的名单模板");
}

#[test]
fn excel_sheet_beyond_the_template_is_refused() {
    let mut book = rust_xlsxwriter::Workbook::new();
    let sheet = book.add_worksheet();
    sheet.write_string(0, 0, "姓名").unwrap();
    sheet.write_string(0, 1, "学号").unwrap();
    sheet.write_string(1, 25, "far").unwrap();
    let bytes = rezipped(book.save_to_buffer().unwrap());
    assert_eq!(message(parse(Some("r.xlsx"), &bytes)), "Excel 名单范围过大，请使用模板并仅保留姓名和学号列");
}

#[test]
fn shortest_worksheet_name_is_checked_too() {
    let bytes = rezipped(workbook(&[&["姓名", "学号"], &["张三", "0012"]], false));
    let mut input = zip::ZipArchive::new(std::io::Cursor::new(bytes)).unwrap();
    let mut out = zip::ZipWriter::new(std::io::Cursor::new(Vec::new()));
    for i in 0..input.len() {
        let mut entry = input.by_index(i).unwrap();
        let name = entry.name().unwrap().to_string();
        let mut content = Vec::new();
        entry.read_to_end(&mut content).unwrap();
        out.start_file(name, zip::write::SimpleFileOptions::default()).unwrap();
        out.write_all(&content).unwrap();
    }
    out.start_file("xl/worksheets/.xml", zip::write::SimpleFileOptions::default()).unwrap();
    out.write_all(br#"<worksheet><sheetData><row r="1"><c r="Z1"/></row></sheetData></worksheet>"#).unwrap();
    let bytes = out.finish().unwrap().into_inner();
    assert_eq!(message(parse(Some("r.xlsx"), &bytes)), "Excel 名单范围过大，请使用模板并仅保留姓名和学号列");
}

#[test]
fn appended_rosters_skip_listed_students_and_refuse_conflicts() {
    let existing = vec![student("甲", "001"), student("乙", "002")];
    let read = vec![student("甲", "001"), student("丙", "003"), student("丁", "004")];
    assert_eq!(roster_additions(&existing, &read).unwrap(), vec![student("丙", "003"), student("丁", "004")]);
    assert!(roster_additions(&existing, &existing).unwrap().is_empty());
    let conflict = vec![student("丙", "003"), student("乙二", "002")];
    assert_eq!(
        err_message(roster_additions(&existing, &conflict)),
        "导入学号与现有名单中的姓名不一致，本次名单未保存，请核对后重试"
    );
    let repeated = vec![student("戊", "005"), student("戊", "005"), student("己", "005")];
    assert!(roster_additions(&vec![], &repeated).is_err());
    assert_eq!(roster_additions(&vec![], &repeated[..2].to_vec()).unwrap(), vec![student("戊", "005")]);
}

#[test]
fn the_roster_form_gives_a_file_or_a_text() {
    let text = Some(b"\xe5\xa7\x93\xe5\x90\x8d,\xe5\xad\xa6\xe5\x8f\xb7\n".to_vec());
    let file = Some(("r.csv".to_string(), b"x".to_vec()));
    assert_eq!(err_message(roster_submission(text.clone(), file.clone())), "请选择上传文件或粘贴名单其中一种方式");
    assert_eq!(roster_submission(None, file.clone()).unwrap(), (Some("r.csv".to_string()), b"x".to_vec()));
    assert_eq!(roster_submission(Some(b" \t\r\n".to_vec()), file).unwrap().0, Some("r.csv".to_string()));
    assert_eq!(roster_submission(text.clone(), Some((String::new(), vec![]))).unwrap(), (None, text.clone().unwrap()));
    assert_eq!(roster_submission(None, None).unwrap(), (None, vec![]));
}
