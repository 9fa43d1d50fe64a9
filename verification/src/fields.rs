//! The fields each category shows on the submission form.
use vstd::prelude::*;

use crate::domain::{all_categories, keys, Category};

verus! {

/// What a form field is, as plain text: its name, its label, the choices it offers
/// (value and label; none for free text), whether it must be filled, and the answer
/// to another field on which it is shown (an empty name when always shown).
#[verifier::ext_equal]
pub struct FieldView {
    pub key: Seq<char>,
    pub label: Seq<char>,
    pub options: Seq<(Seq<char>, Seq<char>)>,
    pub required: bool,
    pub when_key: Seq<char>,
    pub when_value: Seq<char>,
}

/// A category and the fields its part of the form shows, in order.
#[verifier::ext_equal]
pub struct SectionView {
    pub category: Category,
    pub fields: Seq<FieldView>,
}

/// One field of the submission form.
pub struct Field {
    pub key: &'static str,
    pub label: &'static str,
    pub options: Vec<(&'static str, &'static str)>,
    pub required: bool,
    pub when_key: &'static str,
    pub when_value: &'static str,
}

/// The fields the form shows for one category.
pub struct CategorySection {
    pub category: Category,
    pub fields: Vec<Field>,
}

pub open spec fn options_view(o: Seq<(&'static str, &'static str)>) -> Seq<(Seq<char>, Seq<char>)> {
    o.map_values(|p: (&'static str, &'static str)| (p.0@, p.1@))
}

impl Field {
    pub open spec fn view(&self) -> FieldView {
        FieldView {
            key: self.key@,
            label: self.label@,
            options: options_view(self.options@),
            required: self.required,
            when_key: self.when_key@,
            when_value: self.when_value@,
        }
    }

    /// A required free-text field shown whatever the other answers.
    pub fn text(key: &'static str, label: &'static str) -> (r: Self)
        ensures
            r.view() == text_field(key@, label@),
    {
        let options: Vec<(&'static str, &'static str)> = Vec::new();
        assert(options_view(options@) =~= Seq::empty());
        let r = Field { key, label, options, required: true, when_key: "", when_value: "" };
        proof {
            reveal_strlit("");
        }
        assert(r.when_key@ =~= Seq::<char>::empty());
        assert(r.when_value@ =~= Seq::<char>::empty());
        r
    }

    /// The same field, no longer required.
    pub fn optional(self) -> (r: Self)
        ensures
            r.view() == optional_field(self.view()),
    {
        Field { required: false, ..self }
    }

    /// The same field, offering these choices.
    pub fn options(self, options: Vec<(&'static str, &'static str)>) -> (r: Self)
        ensures
            r.view() == with_options(self.view(), options_view(options@)),
    {
        Field { options, ..self }
    }

    /// The same field, shown only when the field `key` holds `value`.
    pub fn when(self, key: &'static str, value: &'static str) -> (r: Self)
        ensures
            r.view() == when_field(self.view(), key@, value@),
    {
        Field { when_key: key, when_value: value, ..self }
    }
}

impl CategorySection {
    pub open spec fn view(&self) -> SectionView {
        SectionView { category: self.category, fields: self.fields@.map_values(|f: Field| f.view()) }
    }
}

pub open spec fn text_field(key: Seq<char>, label: Seq<char>) -> FieldView {
    FieldView { key, label, options: Seq::empty(), required: true, when_key: Seq::empty(), when_value: Seq::empty() }
}

pub open spec fn optional_field(f: FieldView) -> FieldView {
    FieldView { required: false, ..f }
}

pub open spec fn with_options(f: FieldView, options: Seq<(Seq<char>, Seq<char>)>) -> FieldView {
    FieldView { options, ..f }
}

pub open spec fn when_field(f: FieldView, key: Seq<char>, value: Seq<char>) -> FieldView {
    FieldView { when_key: key, when_value: value, ..f }
}

pub open spec fn level_choices() -> Seq<(Seq<char>, Seq<char>)> {
    seq![("国家"@, "国家"@), ("省部"@, "省部"@), ("市"@, "市"@), ("校"@, "校"@)]
}

pub open spec fn yes_no_choices() -> Seq<(Seq<char>, Seq<char>)> {
    seq![("yes"@, "是"@), ("no"@, "否"@)]
}

fn level_options() -> (r: Vec<(&'static str, &'static str)>)
    ensures
        options_view(r@) == level_choices(),
{
    let r = vec![("国家", "国家"), ("省部", "省部"), ("市", "市"), ("校", "校")];
    assert(options_view(r@) =~= level_choices());
    r
}

fn yes_no_options() -> (r: Vec<(&'static str, &'static str)>)
    ensures
        options_view(r@) == yes_no_choices(),
{
    let r = vec![("yes", "是"), ("no", "否")];
    assert(options_view(r@) =~= yes_no_choices());
    r
}

/// The fields of the AcademicCompetition section.
pub open spec fn academic_fields() -> Seq<FieldView> {
    seq![
        text_field(keys::COMPETITION_NAME@, "竞赛完整名称"@),
        with_options(text_field(keys::COMPETITION_TYPE@, "学科竞赛类别"@), seq![("A+/A"@, "A+/A"@), ("A+"@, "A+"@), ("A"@, "A"@), ("B"@, "B"@), ("C"@, "C"@), ("未列入/不清楚"@, "未列入/不清楚"@)]),
        optional_field(text_field(keys::CATALOG_NO@, "目录序号"@)),
        with_options(text_field(keys::LEVEL@, "竞赛级别"@), level_choices()),
        with_options(text_field(keys::AWARD_LEVEL@, "获奖等级"@), seq![("一等奖"@, "一等奖"@), ("二等奖"@, "二等奖"@), ("三等奖"@, "三等奖"@), ("优秀/鼓励奖"@, "优秀/鼓励奖"@), ("其他"@, "其他"@)]),
        when_field(text_field(keys::OTHER_AWARD@, "实际奖项或名次"@), keys::AWARD_LEVEL@, "其他"@),
    ]
}

/// The fields of the SportsArtsCompetition section.
pub open spec fn sports_arts_fields() -> Seq<FieldView> {
    seq![
        text_field(keys::COMPETITION_NAME@, "比赛完整名称"@),
        with_options(text_field(keys::LEVEL@, "比赛级别"@), seq![("国家"@, "国家"@), ("省部"@, "省部"@), ("市"@, "市"@), ("校"@, "校"@), ("其他/不清楚"@, "其他/不清楚"@)]),
        with_options(text_field(keys::HAS_AWARD_LEVEL@, "是否有明确奖项等级"@), yes_no_choices()),
        when_field(text_field(keys::AWARD_LEVEL@, "奖项等级"@), keys::HAS_AWARD_LEVEL@, "yes"@),
        when_field(text_field(keys::RANK@, "实际名次"@), keys::HAS_AWARD_LEVEL@, "no"@),
        optional_field(with_options(text_field(keys::IS_SEU_SPORTS_MEET@, "是否属于东南大学运动会相关项目"@), yes_no_choices())),
    ]
}

/// The fields of the OtherAward section.
pub open spec fn other_award_fields() -> Seq<FieldView> {
    seq![
        text_field(keys::AWARD_NAME@, "荣誉完整名称"@),
        text_field(keys::RECOGNITION_LEVEL@, "表彰级别"@),
        text_field(keys::SCHOOL_HONOR_CATEGORY@, "校级荣誉类别"@),
        with_options(text_field(keys::IS_SCHOLARSHIP@, "是否奖学金/助学金"@), seq![("yes"@, "是"@), ("no"@, "否"@), ("uncertain"@, "不确定"@)]),
    ]
}

/// The fields of the PublishedArticle section.
pub open spec fn article_fields() -> Seq<FieldView> {
    seq![
        text_field(keys::TITLE@, "文章标题"@),
        with_options(text_field(keys::NATURE@, "文章性质"@), seq![("academic"@, "学术论文"@), ("non_academic"@, "非学术文章"@)]),
        when_field(text_field(keys::PUBLICATION_TYPE@, "发表类型"@), keys::NATURE@, "academic"@),
        when_field(text_field(keys::AUTHOR_ORDER@, "作者排序"@), keys::NATURE@, "academic"@),
        when_field(text_field(keys::JOURNAL_NAME@, "期刊名称"@), keys::NATURE@, "academic"@),
        when_field(text_field(keys::PLATFORM@, "发表平台"@), keys::NATURE@, "non_academic"@),
        when_field(text_field(keys::PUBLICATION_FORM@, "发表形式"@), keys::NATURE@, "non_academic"@),
        when_field(text_field(keys::LINK_OR_INFO@, "链接或发表信息"@), keys::NATURE@, "non_academic"@),
    ]
}

/// The fields of the SocialPractice section.
pub open spec fn social_practice_fields() -> Seq<FieldView> {
    seq![
        text_field(keys::PROJECT_NAME@, "项目名称"@),
        text_field(keys::LEVEL@, "项目级别"@),
        text_field(keys::IDENTITY@, "本人身份"@),
        text_field(keys::AWARD_LEVEL_OR_NONE@, "获奖等级或无具体等级"@),
    ]
}

/// The fields of the Patent section.
pub open spec fn patent_fields() -> Seq<FieldView> {
    seq![
        text_field(keys::NAME@, "专利名称"@),
        text_field(keys::TYPE@, "专利类型"@),
        text_field(keys::STATUS@, "专利状态"@),
        text_field(keys::RANKING@, "项目组排名"@),
        text_field(keys::PATENT_NO@, "专利号或申请号"@),
    ]
}

/// The fields of the Certification section.
pub open spec fn certification_fields() -> Seq<FieldView> {
    seq![
        with_options(text_field(keys::CERTIFICATE_TYPE@, "证书/考试类型"@), seq![("CET-6"@, "CET-6"@), ("computer"@, "计算机"@), ("雅思/托福"@, "雅思/托福"@), ("other"@, "其他资格证书"@)]),
        when_field(text_field(keys::CET6_SCORE@, "CET-6 成绩"@), keys::CERTIFICATE_TYPE@, "CET-6"@),
        when_field(text_field(keys::COMPUTER_CATEGORY@, "计算机专业类别"@), keys::CERTIFICATE_TYPE@, "computer"@),
        when_field(text_field(keys::EXAM_LEVEL@, "计算机考试等级"@), keys::CERTIFICATE_TYPE@, "computer"@),
        when_field(text_field(keys::LANGUAGE_SCORE@, "雅思/托福成绩"@), keys::CERTIFICATE_TYPE@, "雅思/托福"@),
        when_field(text_field(keys::QUALIFICATION_NAME@, "其他资格证书名称"@), keys::CERTIFICATE_TYPE@, "other"@),
    ]
}

fn academic_section() -> (r: CategorySection)
    ensures
        r.view() == (SectionView { category: Category::AcademicCompetition, fields: academic_fields() }),
{
    let o0 = vec![("A+/A", "A+/A"), ("A+", "A+"), ("A", "A"), ("B", "B"), ("C", "C"), ("未列入/不清楚", "未列入/不清楚")];
    assert(options_view(o0@) =~= seq![("A+/A"@, "A+/A"@), ("A+"@, "A+"@), ("A"@, "A"@), ("B"@, "B"@), ("C"@, "C"@), ("未列入/不清楚"@, "未列入/不清楚"@)]);
    let o1 = vec![("一等奖", "一等奖"), ("二等奖", "二等奖"), ("三等奖", "三等奖"), ("优秀/鼓励奖", "优秀/鼓励奖"), ("其他", "其他")];
    assert(options_view(o1@) =~= seq![("一等奖"@, "一等奖"@), ("二等奖"@, "二等奖"@), ("三等奖"@, "三等奖"@), ("优秀/鼓励奖"@, "优秀/鼓励奖"@), ("其他"@, "其他"@)]);
    let fields = vec![
        Field::text(keys::COMPETITION_NAME, "竞赛完整名称"),
        Field::text(keys::COMPETITION_TYPE, "学科竞赛类别").options(o0),
        Field::text(keys::CATALOG_NO, "目录序号").optional(),
        Field::text(keys::LEVEL, "竞赛级别").options(level_options()),
        Field::text(keys::AWARD_LEVEL, "获奖等级").options(o1),
        Field::text(keys::OTHER_AWARD, "实际奖项或名次").when(keys::AWARD_LEVEL, "其他"),
    ];
    let r = CategorySection { category: Category::AcademicCompetition, fields };
    assert(r.view().fields =~= academic_fields());
    r
}

fn sports_arts_section() -> (r: CategorySection)
    ensures
        r.view() == (SectionView { category: Category::SportsArtsCompetition, fields: sports_arts_fields() }),
{
    let o0 = vec![("国家", "国家"), ("省部", "省部"), ("市", "市"), ("校", "校"), ("其他/不清楚", "其他/不清楚")];
    assert(options_view(o0@) =~= seq![("国家"@, "国家"@), ("省部"@, "省部"@), ("市"@, "市"@), ("校"@, "校"@), ("其他/不清楚"@, "其他/不清楚"@)]);
    let fields = vec![
        Field::text(keys::COMPETITION_NAME, "比赛完整名称"),
        Field::text(keys::LEVEL, "比赛级别").options(o0),
        Field::text(keys::HAS_AWARD_LEVEL, "是否有明确奖项等级").options(yes_no_options()),
        Field::text(keys::AWARD_LEVEL, "奖项等级").when(keys::HAS_AWARD_LEVEL, "yes"),
        Field::text(keys::RANK, "实际名次").when(keys::HAS_AWARD_LEVEL, "no"),
        Field::text(keys::IS_SEU_SPORTS_MEET, "是否属于东南大学运动会相关项目").options(yes_no_options()).optional(),
    ];
    let r = CategorySection { category: Category::SportsArtsCompetition, fields };
    assert(r.view().fields =~= sports_arts_fields());
    r
}

fn other_award_section() -> (r: CategorySection)
    ensures
        r.view() == (SectionView { category: Category::OtherAward, fields: other_award_fields() }),
{
    let o0 = vec![("yes", "是"), ("no", "否"), ("uncertain", "不确定")];
    assert(options_view(o0@) =~= seq![("yes"@, "是"@), ("no"@, "否"@), ("uncertain"@, "不确定"@)]);
    let fields = vec![
        Field::text(keys::AWARD_NAME, "荣誉完整名称"),
        Field::text(keys::RECOGNITION_LEVEL, "表彰级别"),
        Field::text(keys::SCHOOL_HONOR_CATEGORY, "校级荣誉类别"),
        Field::text(keys::IS_SCHOLARSHIP, "是否奖学金/助学金").options(o0),
    ];
    let r = CategorySection { category: Category::OtherAward, fields };
    assert(r.view().fields =~= other_award_fields());
    r
}

fn article_section() -> (r: CategorySection)
    ensures
        r.view() == (SectionView { category: Category::PublishedArticle, fields: article_fields() }),
{
    let o0 = vec![("academic", "学术论文"), ("non_academic", "非学术文章")];
    assert(options_view(o0@) =~= seq![("academic"@, "学术论文"@), ("non_academic"@, "非学术文章"@)]);
    let fields = vec![
        Field::text(keys::TITLE, "文章标题"),
        Field::text(keys::NATURE, "文章性质").options(o0),
        Field::text(keys::PUBLICATION_TYPE, "发表类型").when(keys::NATURE, "academic"),
        Field::text(keys::AUTHOR_ORDER, "作者排序").when(keys::NATURE, "academic"),
        Field::text(keys::JOURNAL_NAME, "期刊名称").when(keys::NATURE, "academic"),
        Field::text(keys::PLATFORM, "发表平台").when(keys::NATURE, "non_academic"),
        Field::text(keys::PUBLICATION_FORM, "发表形式").when(keys::NATURE, "non_academic"),
        Field::text(keys::LINK_OR_INFO, "链接或发表信息").when(keys::NATURE, "non_academic"),
    ];
    let r = CategorySection { category: Category::PublishedArticle, fields };
    assert(r.view().fields =~= article_fields());
    r
}

fn social_practice_section() -> (r: CategorySection)
    ensures
        r.view() == (SectionView { category: Category::SocialPractice, fields: social_practice_fields() }),
{
    let fields = vec![
        Field::text(keys::PROJECT_NAME, "项目名称"),
        Field::text(keys::LEVEL, "项目级别"),
        Field::text(keys::IDENTITY, "本人身份"),
        Field::text(keys::AWARD_LEVEL_OR_NONE, "获奖等级或无具体等级"),
    ];
    let r = CategorySection { category: Category::SocialPractice, fields };
    assert(r.view().fields =~= social_practice_fields());
    r
}

fn patent_section() -> (r: CategorySection)
    ensures
        r.view() == (SectionView { category: Category::Patent, fields: patent_fields() }),
{
    let fields = vec![
        Field::text(keys::NAME, "专利名称"),
        Field::text(keys::TYPE, "专利类型"),
        Field::text(keys::STATUS, "专利状态"),
        Field::text(keys::RANKING, "项目组排名"),
        Field::text(keys::PATENT_NO, "专利号或申请号"),
    ];
    let r = CategorySection { category: Category::Patent, fields };
    assert(r.view().fields =~= patent_fields());
    r
}

fn certification_section() -> (r: CategorySection)
    ensures
        r.view() == (SectionView { category: Category::Certification, fields: certification_fields() }),
{
    let o0 = vec![("CET-6", "CET-6"), ("computer", "计算机"), ("雅思/托福", "雅思/托福"), ("other", "其他资格证书")];
    assert(options_view(o0@) =~= seq![("CET-6"@, "CET-6"@), ("computer"@, "计算机"@), ("雅思/托福"@, "雅思/托福"@), ("other"@, "其他资格证书"@)]);
    let fields = vec![
        Field::text(keys::CERTIFICATE_TYPE, "证书/考试类型").options(o0),
        Field::text(keys::CET6_SCORE, "CET-6 成绩").when(keys::CERTIFICATE_TYPE, "CET-6"),
        Field::text(keys::COMPUTER_CATEGORY, "计算机专业类别").when(keys::CERTIFICATE_TYPE, "computer"),
        Field::text(keys::EXAM_LEVEL, "计算机考试等级").when(keys::CERTIFICATE_TYPE, "computer"),
        Field::text(keys::LANGUAGE_SCORE, "雅思/托福成绩").when(keys::CERTIFICATE_TYPE, "雅思/托福"),
        Field::text(keys::QUALIFICATION_NAME, "其他资格证书名称").when(keys::CERTIFICATE_TYPE, "other"),
    ];
    let r = CategorySection { category: Category::Certification, fields };
    assert(r.view().fields =~= certification_fields());
    r
}

/// The form's sections: one per category, in the order of `Category::all`.
pub open spec fn form_sections() -> Seq<SectionView> {
    seq![
        SectionView { category: Category::AcademicCompetition, fields: academic_fields() },
        SectionView { category: Category::SportsArtsCompetition, fields: sports_arts_fields() },
        SectionView { category: Category::OtherAward, fields: other_award_fields() },
        SectionView { category: Category::PublishedArticle, fields: article_fields() },
        SectionView { category: Category::SocialPractice, fields: social_practice_fields() },
        SectionView { category: Category::Patent, fields: patent_fields() },
        SectionView { category: Category::Certification, fields: certification_fields() },
    ]
}

/// The category-specific fields of the submission form.
pub fn category_sections() -> (r: Vec<CategorySection>)
    ensures
        r@.map_values(|s: CategorySection| s.view()) == form_sections(),
{
    let r = vec![
        academic_section(),
        sports_arts_section(),
        other_award_section(),
        article_section(),
        social_practice_section(),
        patent_section(),
        certification_section(),
    ];
    assert(r@.map_values(|s: CategorySection| s.view()) =~= form_sections());
    r
}

/// A field that is shown only on some answer refers to a field shown before it in the
/// same section, one that offers that answer among its choices.
pub open spec fn conditions_refer_back(fields: Seq<FieldView>) -> bool {
    forall|i: int|
        0 <= i < fields.len() && (#[trigger] fields[i]).when_key.len() > 0 ==> exists|j: int|
            0 <= j < i && fields[j].key == fields[i].when_key && exists|k: int|
                0 <= k < fields[j].options.len() && (#[trigger] fields[j].options[k]).0
                    == fields[i].when_value
}


/// The sections follow the categories in their listed order, and in each section every
/// conditional field depends on an earlier choice that can take the awaited answer.
pub proof fn law_form_sections_consistent()
    ensures
        form_sections().len() == all_categories().len(),
        forall|i: int| 0 <= i < form_sections().len() ==> (#[trigger] form_sections()[i]).category
            == all_categories()[i],
        forall|i: int| 0 <= i < form_sections().len() ==> conditions_refer_back(
            (#[trigger] form_sections()[i]).fields,
        ),
{
    assert(conditions_refer_back(academic_fields())) by {
        assert(academic_fields()[4].options[4].0 == "其他"@);
    }
    assert(conditions_refer_back(sports_arts_fields())) by {
        assert(sports_arts_fields()[2].options[0].0 == "yes"@);
        assert(sports_arts_fields()[2].options[1].0 == "no"@);
    }
    assert(conditions_refer_back(other_award_fields()));
    assert(conditions_refer_back(article_fields())) by {
        assert(article_fields()[1].options[0].0 == "academic"@);
        assert(article_fields()[1].options[1].0 == "non_academic"@);
    }
    assert(conditions_refer_back(social_practice_fields()));
    assert(conditions_refer_back(patent_fields()));
    assert(conditions_refer_back(certification_fields())) by {
        let o = certification_fields()[0].options;
        assert(o[0].0 == "CET-6"@);
        assert(o[1].0 == "computer"@);
        assert(o[2].0 == "雅思/托福"@);
        assert(o[3].0 == "other"@);
    }
}

} // verus!
